use cybird::shim::{
    EXPORTS_AUTHOR_TAIL, EXPORTS_CONTEXT_TAIL, EXPORTS_HEAD, EXPORTS_ID_TAIL, EXPORTS_TAIL,
};
use cybird::{PluginDeclaration, ShimError};

#[test]
fn declaration_accepts_names() {
    let d = PluginDeclaration::new("Upgrade3", "PluginContext").unwrap();
    assert_eq!(d.plugin(), "Upgrade3");
    assert_eq!(d.context(), "PluginContext");
    assert!(PluginDeclaration::new("_P1", "clicker::Ctx<Vec<u8>, (u32, &'static str)>").is_ok());
}

#[test]
fn declaration_refuses_bad_plugin_name() {
    assert_eq!(PluginDeclaration::new("", "Ctx").err(), Some(ShimError::InvalidPluginName));
    assert_eq!(PluginDeclaration::new("9lives", "Ctx").err(), Some(ShimError::InvalidPluginName));
    assert_eq!(PluginDeclaration::new("My Plugin", "Ctx").err(), Some(ShimError::InvalidPluginName));
    assert_eq!(PluginDeclaration::new("", "").err(), Some(ShimError::InvalidPluginName));
}

#[test]
fn declaration_refuses_bad_context_type() {
    assert_eq!(PluginDeclaration::new("P", "").err(), Some(ShimError::InvalidContextType));
    assert_eq!(PluginDeclaration::new("P", " Ctx").err(), Some(ShimError::InvalidContextType));
    assert_eq!(
        PluginDeclaration::new("P", "Ctx); drop(x").err(),
        Some(ShimError::InvalidContextType)
    );
    assert_eq!(PluginDeclaration::new("P", "Ctx{}").err(), Some(ShimError::InvalidContextType));
}

#[test]
fn exports_fill_in_names() {
    let d = PluginDeclaration::new("Upgrade3", "PluginContext").unwrap();
    let text = d.exports();
    let expected = format!(
        "{}Upgrade3{}Upgrade3{}PluginContext{}Upgrade3{}",
        EXPORTS_HEAD, EXPORTS_AUTHOR_TAIL, EXPORTS_ID_TAIL, EXPORTS_CONTEXT_TAIL, EXPORTS_TAIL
    );
    assert_eq!(text, expected);
    assert!(text.contains("let plugin = Upgrade3::default();"));
    assert!(text.contains("catch_unwind"));
    assert!(text.contains("as *mut PluginContext) };"));
    for name in ["get_author", "get_id", "load_plugin", "free_string"] {
        assert_eq!(text.matches(&format!("fn {}(", name)).count(), 1);
    }
}
