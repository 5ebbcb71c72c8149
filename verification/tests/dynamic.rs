use df_rs::dynamic::column::Column;
use df_rs::dynamic::df_token::{df, Item};
use df_rs::dynamic::error_string::ErrorString;
use df_rs::dynamic::{DataFrame, Error};

fn floats(values: &[f32]) -> Column {
    Column::Float(values.iter().map(|x| x.to_bits()).collect())
}

fn doubles(values: &[f64]) -> Column {
    Column::Double(values.iter().map(|x| x.to_bits()).collect())
}

fn factors(values: &[&str]) -> Column {
    Column::Factor(values.iter().map(|s| s.to_string()).collect())
}

fn bools(values: &[bool]) -> Column {
    Column::Bool(values.to_vec())
}

fn float_cells(c: &Column) -> Vec<f32> {
    match c {
        Column::Float(v) => v.iter().map(|b| f32::from_bits(*b)).collect(),
        _ => panic!("not a float column"),
    }
}

fn factor_cells(c: &Column) -> Vec<String> {
    match c {
        Column::Factor(v) => v.clone(),
        _ => panic!("not a factor column"),
    }
}

fn message(e: Error) -> String {
    match e {
        Error::General(s) => s.to_string(),
        Error::GeneralBuf(s) => s,
    }
}

fn refusal<T>(r: Result<T, Error>) -> String {
    match r {
        Ok(_) => panic!("was not refused"),
        Err(e) => message(e),
    }
}

fn two_columns() -> DataFrame {
    let x = DataFrame::from_column("x", floats(&[1.0, 2.0, 3.0]));
    let name = DataFrame::from_column("name", factors(&["a", "b", "c"]));
    x.cbind(&name).ok().unwrap()
}

#[test]
fn error_err_wraps_itself() {
    let r: Result<u8, Error> = Error::General("no").err();
    assert!(matches!(r, Err(Error::General("no"))));
    let r: Result<(), Error> = Error::GeneralBuf("built".to_string()).err();
    assert_eq!(refusal(r), "built");
}

#[test]
fn error_string_pastes_in_order() {
    let e = ErrorString::new().p("Column `").p("x").p("` is odd");
    let text: String = e.into();
    assert_eq!(text, "Column `x` is odd");
    let empty: String = ErrorString::new().into();
    assert_eq!(empty, "");
    let same: String = ErrorString::new().p("").p("a").p("").into();
    assert_eq!(same, "a");
}

#[test]
fn error_string_err_is_a_built_message() {
    let r: Result<u8, Error> = ErrorString::from("so ").p("it goes").err();
    match r {
        Err(Error::GeneralBuf(s)) => assert_eq!(s, "so it goes"),
        _ => panic!("expected a built message"),
    }
}

#[test]
fn error_string_conversions() {
    let from_string = ErrorString::from("abc".to_string());
    let from_str = ErrorString::from("abc");
    let a: String = from_string.into();
    let b: String = from_str.into();
    assert_eq!(a, b);
    let e: Error = ErrorString::from("x").p("y").into();
    assert_eq!(message(e), "xy");
    let d: String = ErrorString::default().into();
    assert_eq!(d, "");
}

#[test]
fn column_len_and_variant_str() {
    assert_eq!(floats(&[1.5, 2.5]).len(), 2);
    assert_eq!(doubles(&[]).len(), 0);
    assert_eq!(factors(&["a", "b", "c"]).len(), 3);
    assert_eq!(bools(&[true]).len(), 1);
    assert_eq!(floats(&[]).variant_str(), "Float");
    assert_eq!(doubles(&[]).variant_str(), "Double");
    assert_eq!(factors(&[]).variant_str(), "Factor");
    assert_eq!(bools(&[]).variant_str(), "Boolean");
}

#[test]
fn column_same_kind_and_stacked() {
    assert!(floats(&[1.0]).same_kind(&floats(&[])));
    assert!(!floats(&[1.0]).same_kind(&doubles(&[1.0])));
    let both = floats(&[1.0, 2.0]).stacked(&floats(&[3.0]));
    assert_eq!(float_cells(&both), vec![1.0, 2.0, 3.0]);
    let names = factors(&["a"]).stacked(&factors(&["b", "c"]));
    assert_eq!(factor_cells(&names), vec!["a", "b", "c"]);
    let odd = bools(&[true]).stacked(&floats(&[1.0]));
    assert_eq!(odd.len(), 1);
}

#[test]
fn new_frame_has_no_columns_or_rows() {
    let d = DataFrame::new();
    assert_eq!(d.nrow(), 0);
    assert_eq!(d.ncol(), 0);
    assert!(d.column("x").is_none());
    let e = DataFrame::default();
    assert_eq!((e.nrow(), e.ncol()), (0, 0));
}

#[test]
fn from_column_counts_the_cells() {
    let d = DataFrame::from_column("x", floats(&[1.0, 2.0, 3.0]));
    assert_eq!(d.nrow(), 3);
    assert_eq!(d.ncol(), 1);
    assert_eq!(float_cells(d.column("x").unwrap()), vec![1.0, 2.0, 3.0]);
    assert!(d.column("y").is_none());
}

#[test]
fn cbind_puts_columns_side_by_side() {
    let d = two_columns();
    assert_eq!(d.nrow(), 3);
    assert_eq!(d.ncol(), 2);
    assert_eq!(float_cells(d.column("x").unwrap()), vec![1.0, 2.0, 3.0]);
    assert_eq!(factor_cells(d.column("name").unwrap()), vec!["a", "b", "c"]);
    let empty = DataFrame::new().cbind(&DataFrame::new()).ok().unwrap();
    assert_eq!((empty.nrow(), empty.ncol()), (0, 0));
}

#[test]
fn cbind_refuses_differing_rows() {
    let a = DataFrame::from_column("x", floats(&[1.0, 2.0]));
    let b = DataFrame::from_column("y", floats(&[1.0]));
    assert_eq!(refusal(a.cbind(&b)), "Cannot cbind dataframes with differing number of rows.");
    let r = DataFrame::new().cbind(&b);
    assert!(matches!(
        r,
        Err(Error::General("Cannot cbind dataframes with differing number of rows."))
    ));
}

#[test]
fn cbind_refuses_conflicting_names() {
    let a = two_columns();
    let b = DataFrame::from_column("name", bools(&[true, false, true]));
    assert_eq!(refusal(a.cbind(&b)), "Cannot cbind dataframes with conflicting column names.");
    assert_eq!(refusal(a.cbind(&a)), "Cannot cbind dataframes with conflicting column names.");
}

#[test]
fn cbind_mut_adds_columns_or_leaves_self() {
    let mut a = DataFrame::from_column("x", floats(&[1.0, 2.0]));
    let b = DataFrame::from_column("y", bools(&[true, false]));
    assert_eq!(a.cbind_mut(&b).ok().unwrap().ncol(), 2);
    assert_eq!(a.ncol(), 2);
    assert_eq!(a.column("y").unwrap().variant_str(), "Boolean");
    assert_eq!(
        refusal(a.cbind_mut(&b)),
        "Cannot cbind dataframes with conflicting column names."
    );
    assert_eq!(a.ncol(), 2);
    let short = DataFrame::from_column("z", bools(&[true]));
    assert_eq!(
        refusal(a.cbind_mut(&short)),
        "Cannot cbind dataframes with differing number of rows."
    );
    assert_eq!((a.nrow(), a.ncol()), (2, 2));
}

#[test]
fn rbind_stacks_columns_by_name() {
    let top = two_columns();
    let name = DataFrame::from_column("name", factors(&["d"]));
    let x = DataFrame::from_column("x", floats(&[4.0]));
    let bottom = name.cbind(&x).ok().unwrap();
    let all = top.rbind(&bottom).ok().unwrap();
    assert_eq!(all.nrow(), 4);
    assert_eq!(all.ncol(), 2);
    assert_eq!(float_cells(all.column("x").unwrap()), vec![1.0, 2.0, 3.0, 4.0]);
    assert_eq!(factor_cells(all.column("name").unwrap()), vec!["a", "b", "c", "d"]);
    assert_eq!(top.nrow(), 3);
    let none = DataFrame::new().rbind(&DataFrame::new()).ok().unwrap();
    assert_eq!((none.nrow(), none.ncol()), (0, 0));
}

#[test]
fn rbind_refuses_a_missing_column() {
    let top = two_columns();
    let bottom = DataFrame::from_column("x", floats(&[4.0]));
    assert_eq!(
        refusal(top.rbind(&bottom)),
        "Column `name` is present in self but not in other"
    );
    assert_eq!(
        refusal(top.rbind(&DataFrame::new())),
        "Column `x` is present in self but not in other"
    );
}

#[test]
fn rbind_refuses_an_extra_column_of_the_other_frame() {
    let top = two_columns();
    let bottom = DataFrame::from_column("x", floats(&[4.0]));
    assert_eq!(
        refusal(bottom.rbind(&top)),
        "Column `name` is present in other but not in self"
    );
    let flags = DataFrame::from_column("y", bools(&[true]));
    let r = DataFrame::default().rbind(&flags);
    match r {
        Err(Error::GeneralBuf(s)) => {
            assert_eq!(s, "Column `y` is present in other but not in self")
        }
        _ => panic!("expected a built message"),
    }
    let mut empty = DataFrame::new();
    assert_eq!(
        refusal(empty.rbind_mut(&flags)),
        "Column `y` is present in other but not in self"
    );
    assert_eq!((empty.nrow(), empty.ncol()), (0, 0));
}

#[test]
fn rbind_reports_a_column_of_self_before_one_of_the_other() {
    let mine = DataFrame::from_column("a", floats(&[1.0]));
    let theirs = DataFrame::from_column("b", floats(&[2.0]));
    assert_eq!(refusal(mine.rbind(&theirs)), "Column `a` is present in self but not in other");
    assert_eq!(refusal(theirs.rbind(&mine)), "Column `b` is present in self but not in other");
}

#[test]
fn rbind_refuses_a_column_of_another_type() {
    let top = two_columns();
    let x = DataFrame::from_column("x", doubles(&[4.0]));
    let name = DataFrame::from_column("name", factors(&["d"]));
    let bottom = x.cbind(&name).ok().unwrap();
    assert_eq!(
        refusal(top.rbind(&bottom)),
        "Column `x` is a `Float` in self, but a `Double` in other."
    );
    let flags = DataFrame::from_column("f", bools(&[true]));
    let words = DataFrame::from_column("f", factors(&["t"]));
    assert_eq!(
        refusal(flags.rbind(&words)),
        "Column `f` is a `Boolean` in self, but a `Factor` in other."
    );
}

#[test]
fn rbind_mut_stacks_or_leaves_self() {
    let mut a = DataFrame::from_column("x", floats(&[1.0]));
    let b = DataFrame::from_column("x", floats(&[2.0, 3.0]));
    assert_eq!(a.rbind_mut(&b).ok().unwrap().nrow(), 3);
    assert_eq!(float_cells(a.column("x").unwrap()), vec![1.0, 2.0, 3.0]);
    let c = DataFrame::from_column("y", floats(&[2.0]));
    assert_eq!(refusal(a.rbind_mut(&c)), "Column `x` is present in self but not in other");
    assert_eq!(a.nrow(), 3);
    assert_eq!(float_cells(a.column("x").unwrap()), vec![1.0, 2.0, 3.0]);
}

#[test]
fn select_keeps_the_named_columns() {
    let d = two_columns();
    let only = d.select(&["name"]).ok().unwrap();
    assert_eq!((only.nrow(), only.ncol()), (3, 1));
    assert_eq!(factor_cells(only.column("name").unwrap()), vec!["a", "b", "c"]);
    assert!(only.column("x").is_none());
    let twice = d.select(&["x", "name", "x"]).ok().unwrap();
    assert_eq!(twice.ncol(), 2);
    let none = d.select(&[]).ok().unwrap();
    assert_eq!((none.nrow(), none.ncol()), (3, 0));
    assert_eq!(d.ncol(), 2);
}

#[test]
fn select_refuses_an_unknown_column() {
    let d = two_columns();
    assert_eq!(refusal(d.select(&["x", "y", "z"])), "Column `y` is not present in dataframe.");
    assert_eq!(
        refusal(DataFrame::new().select(&["a"])),
        "Column `a` is not present in dataframe."
    );
}

#[test]
fn select_mut_removes_the_named_columns() {
    let mut d = two_columns();
    assert_eq!(d.select_mut(&["x", "x"]).ok().unwrap().ncol(), 1);
    assert!(d.column("x").is_none());
    assert_eq!(factor_cells(d.column("name").unwrap()), vec!["a", "b", "c"]);
    assert_eq!(d.nrow(), 3);
    assert_eq!(refusal(d.select_mut(&["name", "x"])), "Column `x` is not present in dataframe.");
    assert_eq!(d.ncol(), 1);
    assert_eq!(d.select_mut(&[]).ok().unwrap().ncol(), 1);
}

#[test]
fn filter_is_not_implemented() {
    let d = two_columns();
    let r = d.filter(|_pad: df| true);
    assert_eq!(refusal(r), "unimplemented");
}

#[test]
fn clone_copies_every_column() {
    let d = two_columns();
    let e = d.clone();
    assert_eq!((e.nrow(), e.ncol()), (3, 2));
    assert_eq!(float_cells(e.column("x").unwrap()), vec![1.0, 2.0, 3.0]);
}

fn notes(pad: &df) -> String {
    format!("{:?}", pad)
}

#[test]
fn pad_writes_reverse_polish() {
    let mut d = df::new();
    d.index("x");
    d.index("y");
    let sum = d.add(&d);
    let expected = format!(
        "df {{ items: {:?} }}",
        vec![Item::OwnColumn("x".to_string()), Item::OwnColumn("y".to_string()), Item::Add]
    );
    assert_eq!(notes(&sum), expected);
    let again = df::new();
    assert_eq!(notes(&again), "df { items: [] }");
}
