use cybird::{PluginDeclaration, ShimError};

const PLUGIN_SOURCE: &str = "use clicker_plugin::*;
use cybird::*;

#[cybird::plugin]
#[derive(Default)]
pub struct Upgrade3;

impl Plugin<Upgrades> for Upgrade3 {
    fn author(&self) -> &str {
        \"jprugel\"
    }
}
";

#[test]
fn scan_finds_plugin_and_registry() {
    let d = PluginDeclaration::scan(PLUGIN_SOURCE).unwrap();
    assert_eq!(d.plugin(), "Upgrade3");
    assert_eq!(d.context(), "Upgrades");
    let text = d.exports();
    assert!(text.contains("as *mut Upgrades) };"));
}

#[test]
fn scan_handles_indentation_generics_and_crlf() {
    let src = "mod inner {\r\n    pub struct Host{}\r\n    impl Plugin<registry::Ctx<u8>> for Host {}\r\n}\r\n";
    let d = PluginDeclaration::scan(src).unwrap();
    assert_eq!(d.plugin(), "Host");
    assert_eq!(d.context(), "registry::Ctx<u8>");
}

#[test]
fn scan_without_impl_fails() {
    assert_eq!(PluginDeclaration::scan("").err(), Some(ShimError::NoPluginImpl));
    assert_eq!(
        PluginDeclaration::scan("pub struct A;\nimpl Other<B> for A {}\n").err(),
        Some(ShimError::NoPluginImpl)
    );
    assert_eq!(
        PluginDeclaration::scan("pub struct A;\n// impl Plugin<B> for A\n").err(),
        Some(ShimError::NoPluginImpl)
    );
}

#[test]
fn scan_with_two_impls_fails() {
    let src = "pub struct A;\npub struct B;\nimpl Plugin<X> for A {}\nimpl Plugin<Y> for B {}\n";
    assert_eq!(PluginDeclaration::scan(src).err(), Some(ShimError::AmbiguousPluginImpl));
}

#[test]
fn scan_without_struct_fails() {
    assert_eq!(
        PluginDeclaration::scan("impl Plugin<X> for A {}\n").err(),
        Some(ShimError::NoPluginStruct)
    );
    assert_eq!(
        PluginDeclaration::scan("pub struct AB;\nimpl Plugin<X> for A {}\n").err(),
        Some(ShimError::NoPluginStruct)
    );
    assert_eq!(
        PluginDeclaration::scan("struct A;\nimpl Plugin<X> for A {}\n").err(),
        Some(ShimError::NoPluginStruct)
    );
}

#[test]
fn scan_refuses_bad_names() {
    assert_eq!(
        PluginDeclaration::scan("pub struct 9a;\nimpl Plugin<X> for 9a {}\n").err(),
        Some(ShimError::InvalidPluginName)
    );
    assert_eq!(
        PluginDeclaration::scan("pub struct A;\nimpl Plugin<> for A {}\n").err(),
        Some(ShimError::InvalidContextType)
    );
}
