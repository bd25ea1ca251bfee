use neural_network::utils::csv_data::CsvDataLoader;
use neural_network::utils::csv_data::IncludeType;
use neural_network::utils::csv_data::Label;
use neural_network::utils::csv_data::LoadError;
use neural_network::utils::csv_data::Target;

fn number(text: &String) -> Option<f32> {
    text.parse::<f32>().ok()
}

fn row(fields: &[&str]) -> Vec<String> {
    fields.iter().map(|f| f.to_string()).collect()
}

#[test]
fn new_loader_takes_every_column() {
    let loader = CsvDataLoader::new();
    assert!(matches!(loader.include_type, IncludeType::Blacklist));
    assert!(loader.data_values.is_empty());
    assert_eq!(loader.select_columns(4, None), vec![0, 1, 2, 3]);
}

#[test]
fn select_columns_leaves_out_listed_columns_and_the_given_one() {
    let mut loader = CsvDataLoader::new();
    loader.data_values = vec![1, 3];
    assert_eq!(loader.select_columns(5, None), vec![0, 2, 4]);
    assert_eq!(loader.select_columns(5, Some(0)), vec![2, 4]);
    assert_eq!(loader.select_columns(0, None), Vec::<usize>::new());
}

#[test]
fn select_columns_takes_only_listed_columns_of_a_whitelist() {
    let loader = CsvDataLoader { include_type: IncludeType::Whitelist, data_values: vec![3, 1, 9] };
    assert_eq!(loader.select_columns(5, None), vec![1, 3]);
    assert_eq!(loader.select_columns(5, Some(3)), vec![1]);
}

#[test]
fn single_value_is_read_from_its_column() {
    let loader = CsvDataLoader::new();
    let source = "a,b,c\n1,2,3\n4,5,6\n";
    let data = loader
        .load_labeled_data(source.as_bytes(), Label::SingleOutputRegression(2), &number)
        .unwrap();
    assert_eq!(data, vec![(vec![1.0, 2.0], vec![3.0]), (vec![4.0, 5.0], vec![6.0])]);
}

#[test]
fn class_name_becomes_a_one_hot_vector() {
    let loader = CsvDataLoader::new();
    let labels = vec!["cat", "dog", "owl"];
    let source = "kind,weight,height\ncat,4,25\n";
    let data = loader
        .load_labeled_data(source.as_bytes(), Label::SingleLabelClassification(0, &labels), &number)
        .unwrap();
    assert_eq!(data, vec![(vec![4.0, 25.0], vec![1.0, 0.0, 0.0])]);
}

#[test]
fn class_name_leaves_out_the_column_with_the_index_of_the_name() {
    let loader = CsvDataLoader::new();
    let labels = vec!["cat", "dog", "owl"];
    let rows = vec![row(&["7", "8", "9", "owl"]), row(&["1", "2", "3", "dog"])];
    let blacklist =
        CsvDataLoader { include_type: IncludeType::Blacklist, data_values: vec![3] };
    let data = blacklist
        .labeled_examples(&rows, &Label::SingleLabelClassification(3, &labels), &number)
        .unwrap();
    assert_eq!(
        data,
        vec![(vec![7.0, 8.0], vec![0.0, 0.0, 1.0]), (vec![1.0, 3.0], vec![0.0, 1.0, 0.0])]
    );
    let plan = loader.plan_row(&rows[0], &Label::SingleLabelClassification(3, &labels), 0).unwrap();
    assert!(matches!(plan.target, Target::OneHot { len: 3, hot: 2 }));
    assert_eq!(plan.columns, vec![0, 1, 3]);
}

#[test]
fn labels_without_values_give_an_empty_expected_output() {
    let loader = CsvDataLoader::new();
    let source = "a,b,c\n1,2,3\n";
    let columns = vec![1, 2];
    let several = loader
        .load_labeled_data(source.as_bytes(), Label::MultipleOutputRegression(&columns), &number)
        .unwrap();
    assert_eq!(several, vec![(vec![2.0, 3.0], vec![])]);
    let classes = loader
        .load_labeled_data(source.as_bytes(), Label::MultipleLabelClassification(), &number)
        .unwrap();
    assert_eq!(classes, vec![(vec![2.0, 3.0], vec![])]);
}

#[test]
fn first_record_names_the_columns() {
    let loader = CsvDataLoader::new();
    let inputs = loader.load_unlabeled_data("x,y\n".as_bytes(), &number).unwrap();
    assert_eq!(inputs, Vec::<Vec<f32>>::new());
    let inputs = loader.load_unlabeled_data("x,y\n1,2\n".as_bytes(), &number).unwrap();
    assert_eq!(inputs, vec![vec![1.0, 2.0]]);
}

#[test]
fn unlabeled_data_holds_the_data_columns_of_each_row() {
    let loader = CsvDataLoader { include_type: IncludeType::Whitelist, data_values: vec![0, 2] };
    let source = "a,b,c\n1,x,3\n\"4\",y,6.5\n";
    let inputs = loader.load_unlabeled_data(source.as_bytes(), &number).unwrap();
    assert_eq!(inputs, vec![vec![1.0, 3.0], vec![4.0, 6.5]]);
    let rows = vec![row(&["1", "x", "3"])];
    assert_eq!(loader.unlabeled_inputs(&rows, &number).unwrap(), vec![vec![1.0, 3.0]]);
}

#[test]
fn value_that_is_not_a_number_is_reported() {
    let loader = CsvDataLoader::new();
    let source = "a,b\n1,2\n3,four\n";
    let r = loader.load_unlabeled_data(source.as_bytes(), &number);
    assert!(matches!(r, Err(LoadError::NotANumber { row: 1, column: 1 })));
    let r = loader.load_labeled_data(source.as_bytes(), Label::SingleOutputRegression(1), &number);
    assert!(matches!(r, Err(LoadError::NotANumber { row: 1, column: 1 })));
    let r = loader.labeled_row(&row(&["x", "2"]), &Label::SingleOutputRegression(1), 5, &number);
    assert!(matches!(r, Err(LoadError::NotANumber { row: 5, column: 0 })));
}

#[test]
fn missing_label_column_is_reported() {
    let loader = CsvDataLoader::new();
    let source = "a,b\n1,2\n";
    let r = loader.load_labeled_data(source.as_bytes(), Label::SingleOutputRegression(2), &number);
    assert!(matches!(r, Err(LoadError::MissingColumn { row: 0, column: 2 })));
    let labels = vec!["1"];
    let r = loader.load_labeled_data(
        source.as_bytes(),
        Label::SingleLabelClassification(5, &labels),
        &number,
    );
    assert!(matches!(r, Err(LoadError::MissingColumn { row: 0, column: 5 })));
}

#[test]
fn unknown_label_is_reported() {
    let loader = CsvDataLoader::new();
    let labels = vec!["cat", "dog"];
    let source = "kind,weight\ncat,4\ncow,500\n";
    let r = loader.load_labeled_data(
        source.as_bytes(),
        Label::SingleLabelClassification(0, &labels),
        &number,
    );
    assert!(matches!(r, Err(LoadError::UnknownLabel { row: 1 })));
}

#[test]
fn record_that_cannot_be_read_is_reported() {
    let loader = CsvDataLoader::new();
    let source = "a,b\n1,2\n3\n";
    let r = loader.load_unlabeled_data(source.as_bytes(), &number);
    assert!(matches!(r, Err(LoadError::Csv(_))));
    let r = loader.load_labeled_data(source.as_bytes(), Label::SingleOutputRegression(0), &number);
    assert!(matches!(r, Err(LoadError::Csv(_))));
}

#[test]
fn row_that_cannot_be_loaded_is_reported_before_a_later_record_that_cannot_be_read() {
    let loader = CsvDataLoader::new();
    let source = "a,b\nx,2\n3\n";
    let r = loader.load_unlabeled_data(source.as_bytes(), &number);
    assert!(matches!(r, Err(LoadError::NotANumber { row: 0, column: 0 })));
}
