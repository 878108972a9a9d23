use wren_session::catalog::FunctionCatalogEntry;
use wren_session::context::SessionContext;
use wren_session::errors::ErrorKind;
use wren_session::remote_functions::FunctionType;

const HEADER: &str = "name,function_type,return_type,param_names,param_types,description";

// base64 of "{}"
const EMPTY_MANIFEST: &str = "e30=";

fn entry_named<'a>(es: &'a [FunctionCatalogEntry], name: &str) -> &'a FunctionCatalogEntry {
    es.iter()
        .find(|e| e.name == name)
        .unwrap_or_else(|| panic!("no entry named {name}"))
}

#[test]
fn empty_construction_succeeds() {
    let ctx = SessionContext::new(None, None).unwrap();
    assert!(ctx.model.is_none());
    assert!(ctx.remote_functions.is_empty());
    assert!(ctx.session.scalar.is_empty());
}

#[test]
fn bad_base64_fails_with_decode_error() {
    let r = SessionContext::new(Some("!!!not-base64!!!"), None);
    match r {
        Err(e) => assert_eq!(e.kind(), ErrorKind::ManifestDecode),
        Ok(_) => panic!("an unparseable manifest must fail construction"),
    }
}

#[test]
fn decoded_but_malformed_document_fails_with_decode_error() {
    // base64 of "[1,2" — decodes, but is not one well-formed document
    let r = SessionContext::new(Some("WzEsMg=="), None);
    match r {
        Err(e) => assert_eq!(e.kind(), ErrorKind::ManifestDecode),
        Ok(_) => panic!("a malformed manifest must fail construction"),
    }
}

#[test]
fn well_formed_manifest_binds_a_model() {
    let ctx = SessionContext::new(Some(EMPTY_MANIFEST), None).unwrap();
    assert!(ctx.model.is_some());
    assert_eq!(ctx.model.as_ref().unwrap().manifest, b"{}".to_vec());
}

#[test]
fn remote_functions_register_by_kind() {
    let data = format!(
        "{HEADER}\nlower,scalar,string,,,\nmy_sum,aggregate,int,,,\nmy_rank,window,int,,,\nupper,scalar,string,,,\n"
    );
    let ctx = SessionContext::new(Some(EMPTY_MANIFEST), Some(data.as_bytes())).unwrap();
    assert_eq!(ctx.session.scalar, vec!["lower".to_string(), "upper".to_string()]);
    assert_eq!(ctx.session.aggregate, vec!["my_sum".to_string()]);
    assert_eq!(ctx.session.window, vec!["my_rank".to_string()]);
}

#[test]
fn without_manifest_nothing_is_registered() {
    let data = format!("{HEADER}\nlower,scalar,string,,,\n");
    let ctx = SessionContext::new(None, Some(data.as_bytes())).unwrap();
    assert_eq!(ctx.remote_functions.len(), 1);
    assert!(ctx.session.scalar.is_empty());
    assert!(ctx.session.aggregate.is_empty());
    assert!(ctx.session.window.is_empty());
}

#[test]
fn default_context_is_empty() {
    let ctx = SessionContext::default();
    assert!(ctx.model.is_none());
    assert!(ctx.remote_functions.is_empty());
    assert!(ctx.get_available_functions().is_empty());
}

#[test]
fn merged_names_are_unique_and_remote_wins() {
    let data = format!("{HEADER}\nlower,scalar,string,s,string,Lower a string\n");
    let mut ctx = SessionContext::new(Some(EMPTY_MANIFEST), Some(data.as_bytes())).unwrap();
    // the engine session also knows "lower", and a built-in "abs"
    ctx.session.register(FunctionType::Scalar, "abs".to_string());
    let es = ctx.get_available_functions();
    assert_eq!(es.len(), 2);
    for (i, a) in es.iter().enumerate() {
        for b in es.iter().skip(i + 1) {
            assert_ne!(a.name, b.name);
        }
    }
    let lower = entry_named(&es, "lower");
    assert_eq!(lower.function_type, FunctionType::Scalar);
    assert_eq!(lower.return_type, Some("string".to_string()));
    assert_eq!(lower.param_names, Some(vec!["s".to_string()]));
    assert_eq!(lower.param_types, Some(vec!["string".to_string()]));
    assert_eq!(lower.description, Some("Lower a string".to_string()));
    let abs = entry_named(&es, "abs");
    assert_eq!(abs.function_type, FunctionType::Scalar);
    assert_eq!(abs.return_type, None);
    assert_eq!(abs.param_names, None);
    assert_eq!(abs.param_types, None);
    assert_eq!(abs.description, None);
}

#[test]
fn duplicate_remote_names_keep_the_later_entry() {
    let data = format!("{HEADER}\nf,scalar,int,,,first\nf,scalar,string,,,second\n");
    let ctx = SessionContext::new(None, Some(data.as_bytes())).unwrap();
    let es = ctx.get_available_functions();
    assert_eq!(es.len(), 1);
    assert_eq!(es[0].name, "f");
    assert_eq!(es[0].return_type, Some("string".to_string()));
    assert_eq!(es[0].description, Some("second".to_string()));
}

#[test]
fn engine_kinds_scan_scalar_first() {
    let mut ctx = SessionContext::default();
    ctx.session.register(FunctionType::Window, "w".to_string());
    ctx.session.register(FunctionType::Aggregate, "both".to_string());
    ctx.session.register(FunctionType::Scalar, "both".to_string());
    let es = ctx.get_available_functions();
    assert_eq!(es.len(), 2);
    let both = entry_named(&es, "both");
    assert_eq!(both.function_type, FunctionType::Scalar);
    let w = entry_named(&es, "w");
    assert_eq!(w.function_type, FunctionType::Window);
}

#[test]
fn cloned_contexts_share_the_model() {
    let ctx = SessionContext::new(Some(EMPTY_MANIFEST), None).unwrap();
    let clone = ctx.clone();
    assert!(std::sync::Arc::ptr_eq(
        ctx.model.as_ref().unwrap(),
        clone.model.as_ref().unwrap()
    ));
}

#[test]
fn error_messages_are_readable() {
    let e = SessionContext::new(Some("****"), None).unwrap_err();
    assert!(!e.message().is_empty());
}
