//! Use of the crate with delimited text, on rows of the classic iris data.

use df_rs::DataFrame;

#[derive(Clone, Debug, PartialEq)]
struct Record {
    sepal_length: f32,
    sepal_width: f32,
    petal_length: f32,
    petal_width: f32,
    class: String,
}

const IRIS: &str = "sepal_length,sepal_width,petal_length,petal_width,class
5.1,3.5,1.4,0.2,Iris-setosa
4.9,3.0,1.4,0.2,Iris-setosa
7.0,3.2,4.7,1.4,Iris-versicolor
6.4,3.2,4.5,1.5,Iris-versicolor
6.3,3.3,6.0,2.5,Iris-virginica
5.8,2.7,5.1,1.9,Iris-virginica
";

fn number(field: Option<&str>) -> f32 {
    field.unwrap().parse().unwrap()
}

#[test]
fn csv_test() -> csv::Result<()> {
    let mut rdr = csv::Reader::from_reader(IRIS.as_bytes());
    let mut df: DataFrame<Record> = DataFrame::new();
    for result in rdr.records() {
        let line = result?;
        let record = Record {
            sepal_length: number(line.get(0)),
            sepal_width: number(line.get(1)),
            petal_length: number(line.get(2)),
            petal_width: number(line.get(3)),
            class: line.get(4).unwrap().to_string(),
        };
        df.push(record);
    }

    println!("{:?}", df);
    assert_eq!(df.len(), 6);
    assert_eq!(df.rows()[2].class, "Iris-versicolor");
    assert_eq!(df.rows()[0].sepal_length, 5.1);
    let setosa = df.filter(|r: &Record| r.class == "Iris-setosa");
    assert_eq!(setosa.len(), 2);

    Ok(())
}
