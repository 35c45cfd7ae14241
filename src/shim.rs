use vstd::prelude::*;
use vstd::string::*;

verus! {

/// The start of the exported functions, up to the plugin type in `get_author`.
pub const EXPORTS_HEAD: &'static str = "
use std::ffi::CString;
use std::os::raw::c_char;

// Each function catches a panic of the plugin: none may unwind into the host.

#[unsafe(no_mangle)]
pub extern \"C\" fn get_author() -> *const c_char {
    std::panic::catch_unwind(|| {
        let plugin = ";

/// From after the plugin type in `get_author` up to the plugin type in `get_id`.
pub const EXPORTS_AUTHOR_TAIL: &'static str = "::default();
        match CString::new(plugin.author()) {
            Ok(c_string) => c_string.into_raw() as *const c_char,
            Err(_) => std::ptr::null(),
        }
    })
    .unwrap_or(std::ptr::null())
}

#[unsafe(no_mangle)]
pub extern \"C\" fn get_id() -> *const c_char {
    std::panic::catch_unwind(|| {
        let plugin = ";

/// From after the plugin type in `get_id` up to the registry type in `load_plugin`.
pub const EXPORTS_ID_TAIL: &'static str = "::default();
        match CString::new(plugin.id()) {
            Ok(c_string) => c_string.into_raw() as *const c_char,
            Err(_) => std::ptr::null(),
        }
    })
    .unwrap_or(std::ptr::null())
}

#[unsafe(no_mangle)]
pub extern \"C\" fn load_plugin(ctx_ptr: *mut std::ffi::c_void) -> i32 {
    if ctx_ptr.is_null() {
        return -1;
    }
    // The host hands over a pointer to its registry of the declared type.
    let ctx = unsafe { &mut *(ctx_ptr as *mut ";

/// From after the registry type up to the plugin type in `load_plugin`.
pub const EXPORTS_CONTEXT_TAIL: &'static str = ") };
    let outcome = std::panic::catch_unwind(std::panic::AssertUnwindSafe(|| {
        let plugin = ";

/// From after the plugin type in `load_plugin` to the end.
pub const EXPORTS_TAIL: &'static str = "::default();
        plugin.load(ctx)
    }));
    match outcome {
        Ok(Ok(_)) => 0,
        _ => -1,
    }
}

// Frees a string returned by get_author or get_id; null is ignored.
#[unsafe(no_mangle)]
pub extern \"C\" fn free_string(s: *mut c_char) {
    if !s.is_null() {
        drop(unsafe { CString::from_raw(s) });
    }
}
";

/// The source of the four exported functions of a plugin library whose plugin
/// type is `plugin` and whose registry type is `context`.
pub open spec fn exports_text(plugin: Seq<char>, context: Seq<char>) -> Seq<char> {
    EXPORTS_HEAD@ + plugin + EXPORTS_AUTHOR_TAIL@ + plugin + EXPORTS_ID_TAIL@ + context
        + EXPORTS_CONTEXT_TAIL@ + plugin + EXPORTS_TAIL@
}

/// A character that may start an identifier.
pub open spec fn ident_start(c: char) -> bool {
    ('a' <= c && c <= 'z') || ('A' <= c && c <= 'Z') || c == '_'
}

/// A character that may continue an identifier.
pub open spec fn ident_char(c: char) -> bool {
    ident_start(c) || ('0' <= c && c <= '9')
}

/// An identifier: a letter or `_`, then letters, digits and `_`.
pub open spec fn is_ident(s: Seq<char>) -> bool {
    s.len() > 0 && ident_start(s[0]) && forall|i: int| 0 <= i < s.len() ==> ident_char(s[i])
}

/// A character that may stand in a written type.
pub open spec fn type_char(c: char) -> bool {
    ident_char(c) || c == ':' || c == '<' || c == '>' || c == ',' || c == ' ' || c == '('
        || c == ')' || c == '&' || c == '[' || c == ']' || c == '\''
}

/// A written type: not empty, not starting with a space, and made of the
/// characters of paths, generics, tuples, references and arrays only.
pub open spec fn is_type_text(s: Seq<char>) -> bool {
    s.len() > 0 && s[0] != ' ' && forall|i: int| 0 <= i < s.len() ==> type_char(s[i])
}

/// Why a plugin declaration is refused.
#[derive(Clone, Copy, Debug, PartialEq, Eq, Structural)]
pub enum ShimError {
    /// The plugin type is missing or is no identifier.
    InvalidPluginName,
    /// The registry type is missing or holds characters no type holds.
    InvalidContextType,
    /// The source implements `Plugin` for no type.
    NoPluginImpl,
    /// The source implements `Plugin` more than once.
    AmbiguousPluginImpl,
    /// The type that implements `Plugin` is not declared as a `pub struct`.
    NoPluginStruct,
}

/// What the exported functions of a plugin library are derived from: the plugin
/// type, built with `Default`, and the registry type it implements `Plugin` for.
pub struct PluginDeclaration {
    plugin: String,
    context: String,
}

fn ident_start_exec(c: char) -> (r: bool)
    ensures
        r == ident_start(c),
{
    ('a' <= c && c <= 'z') || ('A' <= c && c <= 'Z') || c == '_'
}

pub(crate) fn ident_char_exec(c: char) -> (r: bool)
    ensures
        r == ident_char(c),
{
    ident_start_exec(c) || ('0' <= c && c <= '9')
}

fn type_char_exec(c: char) -> (r: bool)
    ensures
        r == type_char(c),
{
    ident_char_exec(c) || c == ':' || c == '<' || c == '>' || c == ',' || c == ' ' || c == '('
        || c == ')' || c == '&' || c == '[' || c == ']' || c == '\''
}

/// Whether `s` is an identifier.
pub fn check_ident(s: &str) -> (r: bool)
    ensures
        r == is_ident(s@),
{
    let n = s.unicode_len();
    if n == 0 {
        return false;
    }
    if !ident_start_exec(s.get_char(0)) {
        return false;
    }
    let mut i: usize = 0;
    while i < n
        invariant
            n == s@.len(),
            i <= n,
            forall|j: int| 0 <= j < i ==> ident_char(s@[j]),
        decreases n - i,
    {
        if !ident_char_exec(s.get_char(i)) {
            return false;
        }
        i = i + 1;
    }
    true
}

/// Whether `s` is a written type.
pub fn check_type_text(s: &str) -> (r: bool)
    ensures
        r == is_type_text(s@),
{
    let n = s.unicode_len();
    if n == 0 {
        return false;
    }
    if s.get_char(0) == ' ' {
        return false;
    }
    let mut i: usize = 0;
    while i < n
        invariant
            n == s@.len(),
            i <= n,
            forall|j: int| 0 <= j < i ==> type_char(s@[j]),
        decreases n - i,
    {
        if !type_char_exec(s.get_char(i)) {
            return false;
        }
        i = i + 1;
    }
    true
}

impl PluginDeclaration {
    /// The plugin type's name.
    pub closed spec fn plugin_view(&self) -> Seq<char> {
        self.plugin@
    }

    /// The registry type.
    pub closed spec fn context_view(&self) -> Seq<char> {
        self.context@
    }

    /// A declaration names a plugin type and a registry type that can be written
    /// into source.
    pub open spec fn valid(&self) -> bool {
        is_ident(self.plugin_view()) && is_type_text(self.context_view())
    }

    /// Declares the plugin type `plugin` with registry type `context`. Either
    /// refused name is an error, the plugin type's first.
    pub fn new(plugin: &str, context: &str) -> (r: Result<PluginDeclaration, ShimError>)
        ensures
            !is_ident(plugin@) ==> r == Err::<PluginDeclaration, ShimError>(
                ShimError::InvalidPluginName,
            ),
            is_ident(plugin@) && !is_type_text(context@) ==> r == Err::<
                PluginDeclaration,
                ShimError,
            >(ShimError::InvalidContextType),
            is_ident(plugin@) && is_type_text(context@) ==> r is Ok && r->Ok_0.plugin_view()
                == plugin@ && r->Ok_0.context_view() == context@ && r->Ok_0.valid(),
    {
        if !check_ident(plugin) {
            return Err(ShimError::InvalidPluginName);
        }
        if !check_type_text(context) {
            return Err(ShimError::InvalidContextType);
        }
        Ok(PluginDeclaration { plugin: plugin.to_owned(), context: context.to_owned() })
    }

    /// The plugin type's name.
    pub fn plugin(&self) -> (r: &str)
        ensures
            r@ == self.plugin_view(),
    {
        self.plugin.as_str()
    }

    /// The registry type.
    pub fn context(&self) -> (r: &str)
        ensures
            r@ == self.context_view(),
    {
        self.context.as_str()
    }

    /// The source of the four functions that the plugin library exports: each
    /// builds the plugin with `Default`; `get_author` and `get_id` hand out its
    /// metadata as strings the caller frees with `free_string`, or null; `load_plugin`
    /// casts the host's pointer to the registry type, runs `load`, and returns 0 on
    /// success and -1 on failure, on a panic or for a null pointer.
    pub fn exports(&self) -> (r: String)
        ensures
            r@ == exports_text(self.plugin_view(), self.context_view()),
    {
        let mut out = String::from_str(EXPORTS_HEAD);
        out.append(self.plugin.as_str());
        out.append(EXPORTS_AUTHOR_TAIL);
        out.append(self.plugin.as_str());
        out.append(EXPORTS_ID_TAIL);
        out.append(self.context.as_str());
        out.append(EXPORTS_CONTEXT_TAIL);
        out.append(self.plugin.as_str());
        out.append(EXPORTS_TAIL);
        out
    }
}

} // verus!
