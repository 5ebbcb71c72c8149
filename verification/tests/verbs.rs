use df_rs::DataFrame;

#[derive(Clone, Debug, PartialEq)]
struct Left {
    id: usize,
    v: i64,
}

#[derive(Clone, Debug, PartialEq)]
struct Right {
    id: usize,
    w: i64,
}

#[derive(Clone, Debug, PartialEq)]
struct Joined {
    id: usize,
    v: i64,
    w: i64,
}

fn left() -> DataFrame<Left> {
    let mut a = DataFrame::new();
    a.push(Left { id: 1, v: 10 });
    a.push(Left { id: 2, v: 20 });
    a
}

fn right() -> DataFrame<Right> {
    let mut b = DataFrame::new();
    b.push(Right { id: 2, w: 200 });
    b.push(Right { id: 3, w: 300 });
    b
}

fn same_id(pair: &(&Left, &Right)) -> bool {
    pair.0.id == pair.1.id
}

fn join(pair: (Left, Right)) -> Joined {
    Joined { id: pair.0.id, v: pair.0.v, w: pair.1.w }
}

fn zero() -> Joined {
    Joined { id: 0, v: 0, w: 0 }
}

fn no_default() -> Option<fn() -> Joined> {
    None
}

#[test]
fn new_frame_is_empty() {
    let df: DataFrame<Left> = DataFrame::new();
    assert_eq!(df.len(), 0);
    assert!(df.rows().is_empty());
}

#[test]
fn with_runs_the_constructor() {
    let seed = Left { id: 7, v: 70 };
    let df = DataFrame::with(|| {
        let mut d = DataFrame::new();
        d.push(seed.clone());
        d
    });
    assert_eq!(df.rows(), &vec![Left { id: 7, v: 70 }]);
}

#[test]
fn push_appends_at_the_end() {
    let mut df = left();
    df.push(Left { id: 3, v: 30 });
    assert_eq!(df.len(), 3);
    assert_eq!(df.rows()[2], Left { id: 3, v: 30 });
    assert_eq!(df.rows()[0], Left { id: 1, v: 10 });
}

#[test]
fn extend_keeps_source_order() {
    let mut df = left();
    df.extend(vec![Left { id: 5, v: 50 }, Left { id: 4, v: 40 }]);
    let ids: Vec<usize> = df.rows().iter().map(|r| r.id).collect();
    assert_eq!(ids, vec![1, 2, 5, 4]);
    df.extend(Vec::new());
    assert_eq!(df.len(), 4);
}

#[test]
fn transform_applies_to_each_row_in_order() {
    let df = left();
    let out = df.transform(|r: Left| r.v + 1);
    assert_eq!(out.rows(), &vec![11, 21]);
    assert_eq!(out.len(), df.len());
    assert_eq!(df.rows(), left().rows());
}

#[test]
fn transform_of_many_rows_keeps_their_order() {
    let mut df: DataFrame<u64> = DataFrame::new();
    df.extend((0..10_000u64).collect());
    let out = df.transform(|x: u64| x * 3);
    assert_eq!(out.len(), 10_000);
    for (i, x) in out.rows().iter().enumerate() {
        assert_eq!(*x, 3 * i as u64);
    }
}

#[test]
fn verbs_on_an_empty_frame_return_an_empty_frame() {
    let df: DataFrame<Left> = DataFrame::new();
    assert_eq!(df.transform(|r: Left| r.id).len(), 0);
    assert_eq!(df.select(|r: Left| r.v).len(), 0);
    assert_eq!(df.mutate(|r: &mut Left| r.v += 1).len(), 0);
    assert_eq!(df.filter(|_r: &Left| true).len(), 0);
    let none = df.gather((|r: Left| vec![("v", r.v)], |r: &mut Left, _k: String, v: i64| r.v = v));
    assert_eq!(none.len(), 0);
}

#[test]
fn transform_may_change_the_row_type() {
    let df = left();
    let out: DataFrame<String> = df.transform(|r: Left| format!("{}:{}", r.id, r.v));
    assert_eq!(out.rows(), &vec!["1:10".to_string(), "2:20".to_string()]);
}

#[test]
fn select_reshapes_rows() {
    let df = left();
    let out = df.select(|r: Left| (r.id, r.v * 2));
    assert_eq!(out.rows(), &vec![(1, 20), (2, 40)]);
}

#[test]
fn mutate_edits_duplicates_and_leaves_the_source() {
    let df = left();
    let out = df.mutate(|r: &mut Left| r.v = 2 * r.v);
    assert_eq!(out.rows(), &vec![Left { id: 1, v: 20 }, Left { id: 2, v: 40 }]);
    assert_eq!(df.rows(), &vec![Left { id: 1, v: 10 }, Left { id: 2, v: 20 }]);
}

#[test]
fn mutate_with_no_edit_is_the_identity() {
    let df = left();
    let out = df.mutate(|_r: &mut Left| {});
    assert_eq!(out.rows(), df.rows());
}

#[test]
fn filter_keeps_matching_rows_in_order() {
    let mut df: DataFrame<i64> = DataFrame::new();
    df.extend(vec![5, -1, 4, -2, 3, 0, 2]);
    let out = df.filter(|x: &i64| *x > 0);
    assert_eq!(out.rows(), &vec![5, 4, 3, 2]);
    assert_eq!(df.len(), 7);
}

#[test]
fn filter_length_is_the_count_of_matches() {
    let mut df: DataFrame<u32> = DataFrame::new();
    df.extend((0..1000u32).collect());
    let out = df.filter(|x: &u32| x % 7 == 0);
    let expected: Vec<u32> = (0..1000u32).filter(|x| x % 7 == 0).collect();
    assert_eq!(out.len(), 143);
    assert_eq!(out.rows(), &expected);
}

#[test]
fn filter_none_and_all() {
    let df = left();
    assert_eq!(df.filter(|_r: &Left| false).len(), 0);
    assert_eq!(df.filter(|_r: &Left| true).rows(), df.rows());
    let empty: DataFrame<Left> = DataFrame::new();
    assert_eq!(empty.filter(|_r: &Left| true).len(), 0);
}

#[test]
fn lookup_without_default_drops_unmatched_rows() {
    let a = left();
    let b = right();
    let out = a.lookup(&b, same_id, join, no_default());
    assert_eq!(out.rows(), &vec![Joined { id: 2, v: 20, w: 200 }]);
}

#[test]
fn lookup_with_default_replaces_unmatched_rows_in_place() {
    let a = left();
    let b = right();
    let out = a.lookup(&b, same_id, join, Some(zero));
    assert_eq!(
        out.rows(),
        &vec![Joined { id: 0, v: 0, w: 0 }, Joined { id: 2, v: 20, w: 200 }]
    );
    assert_eq!(out.len(), a.len());
}

#[test]
fn lookup_takes_the_first_match_in_row_order() {
    let mut a = DataFrame::new();
    a.push(Left { id: 2, v: 1 });
    let mut b = DataFrame::new();
    b.push(Right { id: 3, w: 30 });
    b.push(Right { id: 2, w: 21 });
    b.push(Right { id: 2, w: 22 });
    b.push(Right { id: 2, w: 23 });
    let out = a.lookup(&b, same_id, join, no_default());
    assert_eq!(out.rows(), &vec![Joined { id: 2, v: 1, w: 21 }]);
}

#[test]
fn lookup_in_a_large_frame_breaks_ties_by_index() {
    let mut a = DataFrame::new();
    for id in 0..50usize {
        a.push(Left { id, v: id as i64 });
    }
    let mut b = DataFrame::new();
    for k in 0..5000usize {
        b.push(Right { id: k % 50, w: k as i64 });
    }
    let out = a.lookup(&b, same_id, join, no_default());
    assert_eq!(out.len(), 50);
    for (i, row) in out.rows().iter().enumerate() {
        assert_eq!(*row, Joined { id: i, v: i as i64, w: i as i64 });
    }
}

#[test]
fn lookup_twice_gives_the_same_rows() {
    let mut a = DataFrame::new();
    let mut b = DataFrame::new();
    for k in 0..300usize {
        a.push(Left { id: k % 17, v: k as i64 });
        b.push(Right { id: k % 13, w: 1000 + k as i64 });
    }
    let once = a.lookup(&b, same_id, join, Some(zero));
    let twice = a.lookup(&b, same_id, join, Some(zero));
    assert_eq!(once.rows(), twice.rows());
    assert_eq!(once.len(), 300);
}

#[test]
fn lookup_in_an_empty_frame() {
    let a = left();
    let b: DataFrame<Right> = DataFrame::new();
    assert_eq!(a.lookup(&b, same_id, join, no_default()).len(), 0);
    assert_eq!(a.lookup(&b, same_id, join, Some(zero)).rows(), &vec![zero(), zero()]);
    let none: DataFrame<Left> = DataFrame::new();
    assert_eq!(none.lookup(&right(), same_id, join, Some(zero)).len(), 0);
}

#[test]
fn reverse_lookup_walks_the_other_frame() {
    let a = left();
    let b = right();
    let out = a.reverse_lookup(&b, same_id, join, no_default());
    assert_eq!(out.rows(), &vec![Joined { id: 2, v: 20, w: 200 }]);
    let filled = a.reverse_lookup(&b, same_id, join, Some(zero));
    assert_eq!(
        filled.rows(),
        &vec![Joined { id: 2, v: 20, w: 200 }, Joined { id: 0, v: 0, w: 0 }]
    );
    assert_eq!(filled.len(), b.len());
}

#[test]
fn reverse_lookup_is_lookup_with_the_frames_swapped() {
    let mut a = DataFrame::new();
    let mut b = DataFrame::new();
    for k in 0..40usize {
        a.push(Left { id: k % 7, v: k as i64 });
        b.push(Right { id: k % 5, w: 100 + k as i64 });
    }
    let reversed = a.reverse_lookup(&b, same_id, join, Some(zero));
    let swapped = b.lookup(
        &a,
        |pair: &(&Right, &Left)| same_id(&(pair.1, pair.0)),
        |pair: (Right, Left)| join((pair.1, pair.0)),
        Some(zero),
    );
    assert_eq!(reversed.rows(), swapped.rows());
    let reversed = a.reverse_lookup(&b, same_id, join, no_default());
    let swapped = b.lookup(
        &a,
        |pair: &(&Right, &Left)| same_id(&(pair.1, pair.0)),
        |pair: (Right, Left)| join((pair.1, pair.0)),
        no_default(),
    );
    assert_eq!(reversed.rows(), swapped.rows());
}

#[derive(Clone, Debug, PartialEq)]
struct Wide {
    id: usize,
    bar: Option<i32>,
    baz: Option<i32>,
    key: Option<String>,
    val: Option<i32>,
}

fn wide(id: usize, bar: Option<i32>, baz: Option<i32>) -> Wide {
    Wide { id, bar, baz, key: None, val: None }
}

fn bar_baz(r: Wide) -> Vec<(&'static str, Option<i32>)> {
    vec![("bar", r.bar), ("baz", r.baz)]
}

fn set_key_val(r: &mut Wide, name: String, value: Option<i32>) {
    r.bar = None;
    r.baz = None;
    r.key = Some(name);
    r.val = value;
}

#[test]
fn gather_makes_one_row_per_field_in_field_order() {
    let mut df = DataFrame::new();
    df.push(wide(1, Some(5), Some(6)));
    let out = df.gather((bar_baz, set_key_val));
    assert_eq!(
        out.rows(),
        &vec![
            Wide { id: 1, bar: None, baz: None, key: Some("bar".to_string()), val: Some(5) },
            Wide { id: 1, bar: None, baz: None, key: Some("baz".to_string()), val: Some(6) },
        ]
    );
    assert_eq!(df.rows(), &vec![wide(1, Some(5), Some(6))]);
}

#[test]
fn gather_length_is_the_sum_of_the_field_counts() {
    let mut df = DataFrame::new();
    for id in 0..10usize {
        df.push(wide(id, Some(id as i32), None));
    }
    let out = df.gather((
        |r: Wide| {
            let mut named = Vec::new();
            for _ in 0..(r.id % 4) {
                named.push(("bar", r.bar));
            }
            named
        },
        set_key_val,
    ));
    // 0+1+2+3 + 0+1+2+3 + 0+1
    assert_eq!(out.len(), 13);
    let ids: Vec<usize> = out.rows().iter().map(|r| r.id).collect();
    assert_eq!(ids, vec![1, 2, 2, 3, 3, 3, 5, 6, 6, 7, 7, 7, 9]);
}

#[test]
fn gather_of_rows_without_fields_is_empty() {
    let mut df = DataFrame::new();
    df.push(wide(1, Some(5), Some(6)));
    df.push(wide(2, Some(7), Some(8)));
    let out = df.gather((|_r: Wide| Vec::<(&'static str, Option<i32>)>::new(), set_key_val));
    assert_eq!(out.len(), 0);
}

#[test]
fn gather_hands_the_update_the_name_as_given() {
    let mut df = DataFrame::new();
    df.push(wide(3, Some(1), Some(2)));
    df.push(wide(4, None, Some(9)));
    let out = df.gather((bar_baz, set_key_val));
    let keys: Vec<(usize, String, Option<i32>)> =
        out.rows().iter().map(|r| (r.id, r.key.clone().unwrap(), r.val)).collect();
    assert_eq!(
        keys,
        vec![
            (3, "bar".to_string(), Some(1)),
            (3, "baz".to_string(), Some(2)),
            (4, "bar".to_string(), None),
            (4, "baz".to_string(), Some(9)),
        ]
    );
}

#[derive(Debug, Clone, PartialEq)]
struct Record {
    id: usize,
    foo: f32,
    name: String,
}

#[test]
fn test() {
    let mut df: DataFrame<Record> = DataFrame::new();
    df.extend(
        [
            Record { id: 32 as usize, foo: 3.43, name: "name".to_string() },
            Record { id: 1 as usize, foo: 6.54, name: "nrme".to_string() },
            Record { id: 2 as usize, foo: 9.66, name: "nlme".to_string() },
            Record { id: 3 as usize, foo: 0.25, name: "nfme".to_string() },
            Record { id: 4 as usize, foo: 2.29, name: "naoe".to_string() },
            Record { id: 5 as usize, foo: 1.74, name: "nase".to_string() },
            Record { id: 6 as usize, foo: 5.49, name: "name".to_string() },
            Record { id: 7 as usize, foo: 6.30, name: "naye".to_string() },
            Record { id: 8 as usize, foo: 7.72, name: "nace".to_string() },
            Record { id: 11 as usize, foo: 8.81, name: "name".to_string() },
            Record { id: 21 as usize, foo: 9.96, name: "nvme".to_string() },
        ]
        .iter()
        .cloned()
        .collect(),
    );

    println!("{:?}", df);
    assert_eq!(df.len(), 11);

    let doubled = df.mutate(|r: &mut Record| r.foo = 2.0 * r.foo);
    println!("{:?}", doubled);
    assert_eq!(doubled.len(), 11);
    for (before, after) in df.rows().iter().zip(doubled.rows().iter()) {
        assert_eq!(after.id, before.id);
        assert_eq!(after.name, before.name);
        assert_eq!(after.foo, 2.0 * before.foo);
    }

    let named = df.filter(|r: &Record| r.name == "name");
    println!("{:?}", named);
    let ids: Vec<usize> = named.rows().iter().map(|r| r.id).collect();
    assert_eq!(ids, vec![32, 6, 11]);

    let large = df.filter(|r: &Record| r.foo > 3.0);
    println!("{:?}", large);
    let ids: Vec<usize> = large.rows().iter().map(|r| r.id).collect();
    assert_eq!(ids, vec![32, 1, 2, 6, 7, 8, 11, 21]);
}
