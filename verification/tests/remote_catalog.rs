use wren_session::remote_functions::load_remote_functions;
use wren_session::remote_functions::FunctionType;

const HEADER: &str = "name,function_type,return_type,param_names,param_types,description";

#[test]
fn well_formed_rows_load() {
    let data = format!("{HEADER}\nlower,scalar,string,s,string,Lower a string\nmy_sum,aggregate,int,,,\n");
    let fs = load_remote_functions(data.as_bytes());
    assert_eq!(fs.len(), 2);
    assert_eq!(fs[0].name, "lower");
    assert_eq!(fs[0].function_type, FunctionType::Scalar);
    assert_eq!(fs[0].return_type, "string");
    assert_eq!(fs[0].param_names, Some(vec!["s".to_string()]));
    assert_eq!(fs[0].param_types, Some(vec!["string".to_string()]));
    assert_eq!(fs[0].description, Some("Lower a string".to_string()));
    assert_eq!(fs[1].name, "my_sum");
    assert_eq!(fs[1].function_type, FunctionType::Aggregate);
    assert_eq!(fs[1].param_names, None);
    assert_eq!(fs[1].param_types, None);
    assert_eq!(fs[1].description, None);
}

#[test]
fn one_good_one_malformed_yields_one() {
    let data = format!("{HEADER}\nlower,scalar,string,s,string,ok\nonly_two,fields\n");
    let fs = load_remote_functions(data.as_bytes());
    assert_eq!(fs.len(), 1);
    assert_eq!(fs[0].name, "lower");
}

#[test]
fn unknown_function_type_is_skipped() {
    let data = format!("{HEADER}\nf,tabular,string,,,\ng,window,int,,,\n");
    let fs = load_remote_functions(data.as_bytes());
    assert_eq!(fs.len(), 1);
    assert_eq!(fs[0].name, "g");
    assert_eq!(fs[0].function_type, FunctionType::Window);
}

#[test]
fn missing_required_column_yields_nothing() {
    let data = "name,return_type\nlower,string\n";
    let fs = load_remote_functions(data.as_bytes());
    assert_eq!(fs.len(), 0);
}

#[test]
fn quoted_cells_split_on_commas() {
    let data = format!("{HEADER}\nconcat,scalar,string,\"a,b\",\"string,string\",join two\n");
    let fs = load_remote_functions(data.as_bytes());
    assert_eq!(fs.len(), 1);
    assert_eq!(
        fs[0].param_names,
        Some(vec!["a".to_string(), "b".to_string()])
    );
    assert_eq!(
        fs[0].param_types,
        Some(vec!["string".to_string(), "string".to_string()])
    );
}

#[test]
fn reordered_columns_still_map() {
    let data = "function_type,name,description,return_type,param_types,param_names\nscalar,upper,Upper a string,string,string,s\n";
    let fs = load_remote_functions(data.as_bytes());
    assert_eq!(fs.len(), 1);
    assert_eq!(fs[0].name, "upper");
    assert_eq!(fs[0].return_type, "string");
    assert_eq!(fs[0].param_names, Some(vec!["s".to_string()]));
}

#[test]
fn empty_input_yields_nothing() {
    let fs = load_remote_functions(b"");
    assert_eq!(fs.len(), 0);
}
