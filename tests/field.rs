use blocks::field::{CheckableField, Field};
use blocks::position::{p, Pos};
use blocks::shapes::Shape;

fn occupied(f: &Field) -> usize {
    let mut n = 0;
    for y in 0..Field::GAME_HEIGHT {
        for x in 0..Field::WIDTH {
            if !f.is_open(p(x, y)) {
                n += 1;
            }
        }
    }
    n
}

#[test]
fn set_and_at() {
    let mut f = Field::new();
    f.occupy(Pos::new(2, 3), Shape::O);

    assert!(f.is_open(Pos::new(1, 1)));
    assert!(!f.is_open(Pos::new(2, 3)));
}

#[test]
fn is_open() {
    let mut f = Field::new();
    f.occupy(Pos::new(2, 3), Shape::O);

    assert_eq!(true, f.is_open(Pos::new(0, 0)));

    assert_eq!(true, f.is_open(Pos::new(2, 2)));
    assert_eq!(false, f.is_open(Pos::new(2, 3)));

    assert_eq!(false, f.is_open(Pos::new(-1, 0)));
    assert_eq!(false, f.is_open(Pos::new(0, -1)));

    assert_eq!(false, f.is_open(Pos::new(Field::WIDTH, 0)));
    assert_eq!(false, f.is_open(Pos::new(0, Field::GAME_HEIGHT)));
}

#[test]
fn find_lines_reports_full_rows_from_the_top() {
    let mut f = Field::new();
    for x in 0..Field::WIDTH {
        f.occupy(p(x, 2), Shape::T);
        f.occupy(p(x, 7), Shape::S);
    }
    f.occupy(p(0, 4), Shape::Z);
    assert_eq!(f.find_lines(), vec![7, 2]);
    assert_eq!(Field::new().find_lines(), Vec::<i32>::new());
}

#[test]
fn remove_single_full_row() {
    let mut f = Field::new();
    for x in 0..Field::WIDTH {
        f.occupy(p(x, 5), Shape::I);
    }
    f.occupy(p(1, 6), Shape::J);
    f.occupy(p(4, 6), Shape::J);
    f.occupy(p(0, 4), Shape::L);
    f.occupy(p(7, Field::GAME_HEIGHT - 1), Shape::T);
    let before = occupied(&f);
    let row6: Vec<bool> = (0..Field::WIDTH).map(|x| f.is_open(p(x, 6))).collect();

    f.remove_lines(&vec![5]);

    let row5: Vec<bool> = (0..Field::WIDTH).map(|x| f.is_open(p(x, 5))).collect();
    assert_eq!(row5, row6);
    assert!(!f.is_open(p(0, 4)));
    for x in 0..Field::WIDTH {
        assert!(f.is_open(p(x, Field::GAME_HEIGHT - 1)));
    }
    assert!(!f.is_open(p(7, Field::GAME_HEIGHT - 2)));
    assert_eq!(occupied(&f) + Field::WIDTH as usize, before);
}

#[test]
fn remove_several_rows_in_falling_order() {
    let mut f = Field::new();
    for x in 0..Field::WIDTH {
        f.occupy(p(x, 1), Shape::I);
        f.occupy(p(x, 3), Shape::I);
    }
    f.occupy(p(2, 2), Shape::O);
    f.occupy(p(5, 4), Shape::O);
    let lines = f.find_lines();
    assert_eq!(lines, vec![3, 1]);
    f.remove_lines(&lines);
    assert!(!f.is_open(p(2, 1)));
    assert!(!f.is_open(p(5, 2)));
    assert_eq!(occupied(&f), 2);
    assert!(f.find_lines().is_empty());
}
