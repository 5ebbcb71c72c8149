use df_rs::dynamic::df_token_copy::{df, Item};

fn notes(pad: &df) -> String {
    format!("{:?}", pad)
}

fn expect(stack: Vec<Item>, stage: Vec<Item>) -> String {
    format!("df {{ stack: {:?}, stage: {:?} }}", stack, stage)
}

#[test]
fn staged_pad_moves_operands_on_add() {
    let mut d = df::new();
    d.index("x");
    d.index("y");
    assert_eq!(d.staged(), 2);
    let sum = d.add(&d);
    assert_eq!(
        notes(&sum),
        expect(vec![Item::OwnColumn("y"), Item::OwnColumn("x"), Item::Add], vec![])
    );
    assert_eq!(sum.staged(), 0);
    assert_eq!(notes(&d), expect(vec![], vec![Item::OwnColumn("x"), Item::OwnColumn("y")]));
}

#[test]
fn staged_pad_forgets_unused_columns() {
    let mut d = df::new();
    d.index("a");
    d.index("x");
    d.index("y");
    let sum = d.add(&d);
    assert_eq!(
        notes(&sum),
        expect(vec![Item::OwnColumn("y"), Item::OwnColumn("x"), Item::Add], vec![])
    );
}

#[test]
fn staged_pad_chains_additions() {
    let mut d = df::new();
    d.index("a");
    d.index("b");
    let mut ab = d.add(&d);
    ab.index("c");
    ab.index("d");
    let all = ab.add(&ab);
    assert_eq!(
        notes(&all),
        expect(
            vec![
                Item::OwnColumn("b"),
                Item::OwnColumn("a"),
                Item::Add,
                Item::OwnColumn("d"),
                Item::OwnColumn("c"),
                Item::Add
            ],
            vec![]
        )
    );
    let copy = all.clone();
    assert_eq!(notes(&copy), notes(&all));
}
