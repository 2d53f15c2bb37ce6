use vstd::prelude::*;

verus! {

/// Validated configuration of one marker run: the module whose imports are
/// tracked, the attribute that is injected, and the exported name of that
/// module's styled factory.
#[derive(Debug, Clone, PartialEq, Eq)]
pub struct JSXMarkerOptions {
    pub library_name: String,
    pub attribute_name: String,
    pub styled_function_name: String,
}

/// The mathematical form of the options.
pub struct OptionsModel {
    pub library_name: Seq<char>,
    pub attribute_name: Seq<char>,
    pub styled_function_name: Seq<char>,
}

impl View for JSXMarkerOptions {
    type V = OptionsModel;

    open spec fn view(&self) -> OptionsModel {
        OptionsModel {
            library_name: self.library_name@,
            attribute_name: self.attribute_name@,
            styled_function_name: self.styled_function_name@,
        }
    }
}

/// Options as the host hands them over, each field possibly absent.
#[derive(Debug, Clone, PartialEq, Eq, Default)]
pub struct JSXMarkerPluginOptions {
    pub library_name: Option<String>,
    pub attribute_name: Option<String>,
    pub styled_function: Option<String>,
}

pub open spec fn default_library_name() -> Seq<char> {
    "@chakra-ui/react"@
}

pub open spec fn default_attribute_name() -> Seq<char> {
    "data-uic"@
}

pub open spec fn default_styled_function_name() -> Seq<char> {
    "chakra"@
}

/// The value of an optional field, or the fallback when it is absent.
pub open spec fn or_default(o: Option<String>, d: Seq<char>) -> Seq<char> {
    match o {
        Some(s) => s@,
        None => d,
    }
}

impl JSXMarkerPluginOptions {
    /// Fills each absent field with its fixed default.
    pub fn into_jsx_marker_options(self) -> (r: JSXMarkerOptions)
        ensures
            r.library_name@ == or_default(self.library_name, default_library_name()),
            r.attribute_name@ == or_default(self.attribute_name, default_attribute_name()),
            r.styled_function_name@ == or_default(
                self.styled_function,
                default_styled_function_name(),
            ),
    {
        let library_name = match self.library_name {
            Some(s) => s,
            None => String::from_str("@chakra-ui/react"),
        };
        let attribute_name = match self.attribute_name {
            Some(s) => s,
            None => String::from_str("data-uic"),
        };
        let styled_function_name = match self.styled_function {
            Some(s) => s,
            None => String::from_str("chakra"),
        };
        JSXMarkerOptions { library_name, attribute_name, styled_function_name }
    }
}

} // verus!
