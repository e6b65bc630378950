//! The compiler tool (`VCCLCompilerTool`): its settings, how file settings
//! are laid over the configuration's, and the `cl` command line they give.
use vstd::prelude::*;
use crate::env::{EnvView, MsBuildEnvironment};
use crate::flags::{ClGroup, Flags, SpecClGroup, SpecFlags};
use crate::text::{
    clone_opt_list, clone_opt_string, clone_strings, concat_lists, ends_with, join_words,
    lemma_pieces_step, list_or_empty, opt_list_eq, opt_list_view, opt_string_eq, opt_view, or_else,
    pieces, push_char, push_str, seq_of_strings, starts_with, str_eq, strs_view, trim,
    trim_start, trim_start_str, trim_str, words, nonempty, trim_char, trim_quotes, lemma_nonempty_step,
    seq_of_strings as strings_view,
};
use crate::values::{VcprojError, XmlErr, all_digits, flag_number, err_view, flag_err, parse_flag_number};
use crate::text::{ascii_digit, chars_of, extend_strings, is_ascii_digit, join, join_strings, split, split_str};
use crate::vcproj::{
    CharacterSet, Configuration, ConfigurationType, File, FileConfiguration, Files, Filter, VCProject,
};
use crate::winpath::{extension, extension_spec, file_stem, file_stem_spec};

verus! {

/// Values of the `Optimization` attribute and their command-line text.
#[derive(Clone, Copy, Debug, PartialEq, Eq, Structural, Hash)]
pub enum Optimization {
    _0,
    _1,
    _2,
    _3,
}

impl Optimization {
    /// The value for an attribute number.
    pub open spec fn of_value(v: i8) -> Option<Optimization> {
        if v == 0 {
            Some(Optimization::_0)
        } else if v == 1 {
            Some(Optimization::_1)
        } else if v == 2 {
            Some(Optimization::_2)
        } else if v == 3 {
            Some(Optimization::_3)
        } else {
            None
        }
    }

    /// The command-line text of the value.
    pub open spec fn text(self) -> Seq<char> {
        match self {
            Optimization::_0 => "/Od"@,
            Optimization::_1 => "/O1"@,
            Optimization::_2 => "/O2"@,
            Optimization::_3 => "/Ox"@,
        }
    }

    pub fn as_str(&self) -> (r: &'static str)
        ensures
            r@ == self.text(),
    {
        match self {
            Optimization::_0 => "/Od",
            Optimization::_1 => "/O1",
            Optimization::_2 => "/O2",
            Optimization::_3 => "/Ox",
        }
    }

    pub fn from_value(v: i8) -> (r: Option<Optimization>)
        ensures
            r == Optimization::of_value(v),
    {
        if v == 0 {
            Some(Optimization::_0)
        } else if v == 1 {
            Some(Optimization::_1)
        } else if v == 2 {
            Some(Optimization::_2)
        } else if v == 3 {
            Some(Optimization::_3)
        } else {
            None
        }
    }

    /// The value of an attribute text.
    pub open spec fn parse_spec(s: Seq<char>) -> Option<Optimization> {
        match flag_number(s, false) {
            Some(v) => Optimization::of_value(v),
            None => None,
        }
    }

    /// The refusal of a text that is not a value of this kind.
    pub open spec fn parse_err(s: Seq<char>) -> XmlErr {
        flag_err("Optimization"@, s, false)
    }

    pub fn parse(s: &str) -> (r: Result<Optimization, VcprojError>)
        ensures
            match r {
                Ok(x) => Optimization::parse_spec(s@) == Some(x),
                Err(e) => Optimization::parse_spec(s@) is None && err_view(e) == Optimization::parse_err(s@),
            },
    {
        match parse_flag_number(s, false) {
            Ok(v) => match Optimization::from_value(v) {
                Some(x) => Ok(x),
                None => Err(VcprojError::InvalidFlag("Optimization".to_owned(), v)),
            },
            Err(e) => Err(e),
        }
    }
}

/// Values of the `InlineFunctionExpansion` attribute and their command-line text.
#[derive(Clone, Copy, Debug, PartialEq, Eq, Structural, Hash)]
pub enum InlineFunctionExpansion {
    _0,
    _1,
    _2,
}

impl InlineFunctionExpansion {
    /// The value for an attribute number.
    pub open spec fn of_value(v: i8) -> Option<InlineFunctionExpansion> {
        if v == 0 {
            Some(InlineFunctionExpansion::_0)
        } else if v == 1 {
            Some(InlineFunctionExpansion::_1)
        } else if v == 2 {
            Some(InlineFunctionExpansion::_2)
        } else {
            None
        }
    }

    /// The command-line text of the value.
    pub open spec fn text(self) -> Seq<char> {
        match self {
            InlineFunctionExpansion::_0 => ""@,
            InlineFunctionExpansion::_1 => "/Ob1"@,
            InlineFunctionExpansion::_2 => "/Ob2"@,
        }
    }

    pub fn as_str(&self) -> (r: &'static str)
        ensures
            r@ == self.text(),
    {
        match self {
            InlineFunctionExpansion::_0 => "",
            InlineFunctionExpansion::_1 => "/Ob1",
            InlineFunctionExpansion::_2 => "/Ob2",
        }
    }

    pub fn from_value(v: i8) -> (r: Option<InlineFunctionExpansion>)
        ensures
            r == InlineFunctionExpansion::of_value(v),
    {
        if v == 0 {
            Some(InlineFunctionExpansion::_0)
        } else if v == 1 {
            Some(InlineFunctionExpansion::_1)
        } else if v == 2 {
            Some(InlineFunctionExpansion::_2)
        } else {
            None
        }
    }

    /// The value of an attribute text.
    pub open spec fn parse_spec(s: Seq<char>) -> Option<InlineFunctionExpansion> {
        match flag_number(s, false) {
            Some(v) => InlineFunctionExpansion::of_value(v),
            None => None,
        }
    }

    /// The refusal of a text that is not a value of this kind.
    pub open spec fn parse_err(s: Seq<char>) -> XmlErr {
        flag_err("InlineFunctionExpansion"@, s, false)
    }

    pub fn parse(s: &str) -> (r: Result<InlineFunctionExpansion, VcprojError>)
        ensures
            match r {
                Ok(x) => InlineFunctionExpansion::parse_spec(s@) == Some(x),
                Err(e) => InlineFunctionExpansion::parse_spec(s@) is None && err_view(e) == InlineFunctionExpansion::parse_err(s@),
            },
    {
        match parse_flag_number(s, false) {
            Ok(v) => match InlineFunctionExpansion::from_value(v) {
                Some(x) => Ok(x),
                None => Err(VcprojError::InvalidFlag("InlineFunctionExpansion".to_owned(), v)),
            },
            Err(e) => Err(e),
        }
    }
}

/// Values of the `EnableIntrinsicFunctions` attribute and their command-line text.
#[derive(Clone, Copy, Debug, PartialEq, Eq, Structural, Hash)]
pub enum EnableIntrinsicFunctions {
    _0,
    _1,
}

impl EnableIntrinsicFunctions {
    /// The value for an attribute number.
    pub open spec fn of_value(v: i8) -> Option<EnableIntrinsicFunctions> {
        if v == 0 {
            Some(EnableIntrinsicFunctions::_0)
        } else if v == 1 {
            Some(EnableIntrinsicFunctions::_1)
        } else {
            None
        }
    }

    /// The command-line text of the value.
    pub open spec fn text(self) -> Seq<char> {
        match self {
            EnableIntrinsicFunctions::_0 => ""@,
            EnableIntrinsicFunctions::_1 => "/Oi"@,
        }
    }

    pub fn as_str(&self) -> (r: &'static str)
        ensures
            r@ == self.text(),
    {
        match self {
            EnableIntrinsicFunctions::_0 => "",
            EnableIntrinsicFunctions::_1 => "/Oi",
        }
    }

    pub fn from_value(v: i8) -> (r: Option<EnableIntrinsicFunctions>)
        ensures
            r == EnableIntrinsicFunctions::of_value(v),
    {
        if v == 0 {
            Some(EnableIntrinsicFunctions::_0)
        } else if v == 1 {
            Some(EnableIntrinsicFunctions::_1)
        } else {
            None
        }
    }

    /// The value of an attribute text.
    pub open spec fn parse_spec(s: Seq<char>) -> Option<EnableIntrinsicFunctions> {
        match flag_number(s, true) {
            Some(v) => EnableIntrinsicFunctions::of_value(v),
            None => None,
        }
    }

    /// The refusal of a text that is not a value of this kind.
    pub open spec fn parse_err(s: Seq<char>) -> XmlErr {
        flag_err("EnableIntrinsicFunctions"@, s, true)
    }

    pub fn parse(s: &str) -> (r: Result<EnableIntrinsicFunctions, VcprojError>)
        ensures
            match r {
                Ok(x) => EnableIntrinsicFunctions::parse_spec(s@) == Some(x),
                Err(e) => EnableIntrinsicFunctions::parse_spec(s@) is None && err_view(e) == EnableIntrinsicFunctions::parse_err(s@),
            },
    {
        match parse_flag_number(s, true) {
            Ok(v) => match EnableIntrinsicFunctions::from_value(v) {
                Some(x) => Ok(x),
                None => Err(VcprojError::InvalidFlag("EnableIntrinsicFunctions".to_owned(), v)),
            },
            Err(e) => Err(e),
        }
    }
}

/// Values of the `OmitFramePointers` attribute and their command-line text.
#[derive(Clone, Copy, Debug, PartialEq, Eq, Structural, Hash)]
pub enum OmitFramePointers {
    _0,
    _1,
}

impl OmitFramePointers {
    /// The value for an attribute number.
    pub open spec fn of_value(v: i8) -> Option<OmitFramePointers> {
        if v == 0 {
            Some(OmitFramePointers::_0)
        } else if v == 1 {
            Some(OmitFramePointers::_1)
        } else {
            None
        }
    }

    /// The command-line text of the value.
    pub open spec fn text(self) -> Seq<char> {
        match self {
            OmitFramePointers::_0 => ""@,
            OmitFramePointers::_1 => "/Oy"@,
        }
    }

    pub fn as_str(&self) -> (r: &'static str)
        ensures
            r@ == self.text(),
    {
        match self {
            OmitFramePointers::_0 => "",
            OmitFramePointers::_1 => "/Oy",
        }
    }

    pub fn from_value(v: i8) -> (r: Option<OmitFramePointers>)
        ensures
            r == OmitFramePointers::of_value(v),
    {
        if v == 0 {
            Some(OmitFramePointers::_0)
        } else if v == 1 {
            Some(OmitFramePointers::_1)
        } else {
            None
        }
    }

    /// The value of an attribute text.
    pub open spec fn parse_spec(s: Seq<char>) -> Option<OmitFramePointers> {
        match flag_number(s, true) {
            Some(v) => OmitFramePointers::of_value(v),
            None => None,
        }
    }

    /// The refusal of a text that is not a value of this kind.
    pub open spec fn parse_err(s: Seq<char>) -> XmlErr {
        flag_err("OmitFramePointers"@, s, true)
    }

    pub fn parse(s: &str) -> (r: Result<OmitFramePointers, VcprojError>)
        ensures
            match r {
                Ok(x) => OmitFramePointers::parse_spec(s@) == Some(x),
                Err(e) => OmitFramePointers::parse_spec(s@) is None && err_view(e) == OmitFramePointers::parse_err(s@),
            },
    {
        match parse_flag_number(s, true) {
            Ok(v) => match OmitFramePointers::from_value(v) {
                Some(x) => Ok(x),
                None => Err(VcprojError::InvalidFlag("OmitFramePointers".to_owned(), v)),
            },
            Err(e) => Err(e),
        }
    }
}

/// Values of the `EnableFiberSafeOptimizations` attribute and their command-line text.
#[derive(Clone, Copy, Debug, PartialEq, Eq, Structural, Hash)]
pub enum EnableFiberSafeOptimizations {
    _0,
    _1,
}

impl EnableFiberSafeOptimizations {
    /// The value for an attribute number.
    pub open spec fn of_value(v: i8) -> Option<EnableFiberSafeOptimizations> {
        if v == 0 {
            Some(EnableFiberSafeOptimizations::_0)
        } else if v == 1 {
            Some(EnableFiberSafeOptimizations::_1)
        } else {
            None
        }
    }

    /// The command-line text of the value.
    pub open spec fn text(self) -> Seq<char> {
        match self {
            EnableFiberSafeOptimizations::_0 => ""@,
            EnableFiberSafeOptimizations::_1 => "/GT"@,
        }
    }

    pub fn as_str(&self) -> (r: &'static str)
        ensures
            r@ == self.text(),
    {
        match self {
            EnableFiberSafeOptimizations::_0 => "",
            EnableFiberSafeOptimizations::_1 => "/GT",
        }
    }

    pub fn from_value(v: i8) -> (r: Option<EnableFiberSafeOptimizations>)
        ensures
            r == EnableFiberSafeOptimizations::of_value(v),
    {
        if v == 0 {
            Some(EnableFiberSafeOptimizations::_0)
        } else if v == 1 {
            Some(EnableFiberSafeOptimizations::_1)
        } else {
            None
        }
    }

    /// The value of an attribute text.
    pub open spec fn parse_spec(s: Seq<char>) -> Option<EnableFiberSafeOptimizations> {
        match flag_number(s, true) {
            Some(v) => EnableFiberSafeOptimizations::of_value(v),
            None => None,
        }
    }

    /// The refusal of a text that is not a value of this kind.
    pub open spec fn parse_err(s: Seq<char>) -> XmlErr {
        flag_err("EnableFiberSafeOptimizations"@, s, true)
    }

    pub fn parse(s: &str) -> (r: Result<EnableFiberSafeOptimizations, VcprojError>)
        ensures
            match r {
                Ok(x) => EnableFiberSafeOptimizations::parse_spec(s@) == Some(x),
                Err(e) => EnableFiberSafeOptimizations::parse_spec(s@) is None && err_view(e) == EnableFiberSafeOptimizations::parse_err(s@),
            },
    {
        match parse_flag_number(s, true) {
            Ok(v) => match EnableFiberSafeOptimizations::from_value(v) {
                Some(x) => Ok(x),
                None => Err(VcprojError::InvalidFlag("EnableFiberSafeOptimizations".to_owned(), v)),
            },
            Err(e) => Err(e),
        }
    }
}

/// Values of the `FavorSizeOrSpeed` attribute and their command-line text.
#[derive(Clone, Copy, Debug, PartialEq, Eq, Structural, Hash)]
pub enum FavorSizeOrSpeed {
    _0,
    _1,
    _2,
}

impl FavorSizeOrSpeed {
    /// The value for an attribute number.
    pub open spec fn of_value(v: i8) -> Option<FavorSizeOrSpeed> {
        if v == 0 {
            Some(FavorSizeOrSpeed::_0)
        } else if v == 1 {
            Some(FavorSizeOrSpeed::_1)
        } else if v == 2 {
            Some(FavorSizeOrSpeed::_2)
        } else {
            None
        }
    }

    /// The command-line text of the value.
    pub open spec fn text(self) -> Seq<char> {
        match self {
            FavorSizeOrSpeed::_0 => ""@,
            FavorSizeOrSpeed::_1 => "/Ot"@,
            FavorSizeOrSpeed::_2 => "/Os"@,
        }
    }

    pub fn as_str(&self) -> (r: &'static str)
        ensures
            r@ == self.text(),
    {
        match self {
            FavorSizeOrSpeed::_0 => "",
            FavorSizeOrSpeed::_1 => "/Ot",
            FavorSizeOrSpeed::_2 => "/Os",
        }
    }

    pub fn from_value(v: i8) -> (r: Option<FavorSizeOrSpeed>)
        ensures
            r == FavorSizeOrSpeed::of_value(v),
    {
        if v == 0 {
            Some(FavorSizeOrSpeed::_0)
        } else if v == 1 {
            Some(FavorSizeOrSpeed::_1)
        } else if v == 2 {
            Some(FavorSizeOrSpeed::_2)
        } else {
            None
        }
    }

    /// The value of an attribute text.
    pub open spec fn parse_spec(s: Seq<char>) -> Option<FavorSizeOrSpeed> {
        match flag_number(s, false) {
            Some(v) => FavorSizeOrSpeed::of_value(v),
            None => None,
        }
    }

    /// The refusal of a text that is not a value of this kind.
    pub open spec fn parse_err(s: Seq<char>) -> XmlErr {
        flag_err("FavorSizeOrSpeed"@, s, false)
    }

    pub fn parse(s: &str) -> (r: Result<FavorSizeOrSpeed, VcprojError>)
        ensures
            match r {
                Ok(x) => FavorSizeOrSpeed::parse_spec(s@) == Some(x),
                Err(e) => FavorSizeOrSpeed::parse_spec(s@) is None && err_view(e) == FavorSizeOrSpeed::parse_err(s@),
            },
    {
        match parse_flag_number(s, false) {
            Ok(v) => match FavorSizeOrSpeed::from_value(v) {
                Some(x) => Ok(x),
                None => Err(VcprojError::InvalidFlag("FavorSizeOrSpeed".to_owned(), v)),
            },
            Err(e) => Err(e),
        }
    }
}

/// Values of the `WholeProgramOptimization` attribute and their command-line text.
#[derive(Clone, Copy, Debug, PartialEq, Eq, Structural, Hash)]
pub enum WholeProgramOptimization {
    _0,
    _1,
}

impl WholeProgramOptimization {
    /// The value for an attribute number.
    pub open spec fn of_value(v: i8) -> Option<WholeProgramOptimization> {
        if v == 0 {
            Some(WholeProgramOptimization::_0)
        } else if v == 1 {
            Some(WholeProgramOptimization::_1)
        } else {
            None
        }
    }

    /// The command-line text of the value.
    pub open spec fn text(self) -> Seq<char> {
        match self {
            WholeProgramOptimization::_0 => ""@,
            WholeProgramOptimization::_1 => "/GL"@,
        }
    }

    pub fn as_str(&self) -> (r: &'static str)
        ensures
            r@ == self.text(),
    {
        match self {
            WholeProgramOptimization::_0 => "",
            WholeProgramOptimization::_1 => "/GL",
        }
    }

    pub fn from_value(v: i8) -> (r: Option<WholeProgramOptimization>)
        ensures
            r == WholeProgramOptimization::of_value(v),
    {
        if v == 0 {
            Some(WholeProgramOptimization::_0)
        } else if v == 1 {
            Some(WholeProgramOptimization::_1)
        } else {
            None
        }
    }

    /// The value of an attribute text.
    pub open spec fn parse_spec(s: Seq<char>) -> Option<WholeProgramOptimization> {
        match flag_number(s, true) {
            Some(v) => WholeProgramOptimization::of_value(v),
            None => None,
        }
    }

    /// The refusal of a text that is not a value of this kind.
    pub open spec fn parse_err(s: Seq<char>) -> XmlErr {
        flag_err("WholeProgramOptimization"@, s, true)
    }

    pub fn parse(s: &str) -> (r: Result<WholeProgramOptimization, VcprojError>)
        ensures
            match r {
                Ok(x) => WholeProgramOptimization::parse_spec(s@) == Some(x),
                Err(e) => WholeProgramOptimization::parse_spec(s@) is None && err_view(e) == WholeProgramOptimization::parse_err(s@),
            },
    {
        match parse_flag_number(s, true) {
            Ok(v) => match WholeProgramOptimization::from_value(v) {
                Some(x) => Ok(x),
                None => Err(VcprojError::InvalidFlag("WholeProgramOptimization".to_owned(), v)),
            },
            Err(e) => Err(e),
        }
    }
}

/// Values of the `StringPooling` attribute and their command-line text.
#[derive(Clone, Copy, Debug, PartialEq, Eq, Structural, Hash)]
pub enum StringPooling {
    _0,
    _1,
}

impl StringPooling {
    /// The value for an attribute number.
    pub open spec fn of_value(v: i8) -> Option<StringPooling> {
        if v == 0 {
            Some(StringPooling::_0)
        } else if v == 1 {
            Some(StringPooling::_1)
        } else {
            None
        }
    }

    /// The command-line text of the value.
    pub open spec fn text(self) -> Seq<char> {
        match self {
            StringPooling::_0 => ""@,
            StringPooling::_1 => "/GF"@,
        }
    }

    pub fn as_str(&self) -> (r: &'static str)
        ensures
            r@ == self.text(),
    {
        match self {
            StringPooling::_0 => "",
            StringPooling::_1 => "/GF",
        }
    }

    pub fn from_value(v: i8) -> (r: Option<StringPooling>)
        ensures
            r == StringPooling::of_value(v),
    {
        if v == 0 {
            Some(StringPooling::_0)
        } else if v == 1 {
            Some(StringPooling::_1)
        } else {
            None
        }
    }

    /// The value of an attribute text.
    pub open spec fn parse_spec(s: Seq<char>) -> Option<StringPooling> {
        match flag_number(s, true) {
            Some(v) => StringPooling::of_value(v),
            None => None,
        }
    }

    /// The refusal of a text that is not a value of this kind.
    pub open spec fn parse_err(s: Seq<char>) -> XmlErr {
        flag_err("StringPooling"@, s, true)
    }

    pub fn parse(s: &str) -> (r: Result<StringPooling, VcprojError>)
        ensures
            match r {
                Ok(x) => StringPooling::parse_spec(s@) == Some(x),
                Err(e) => StringPooling::parse_spec(s@) is None && err_view(e) == StringPooling::parse_err(s@),
            },
    {
        match parse_flag_number(s, true) {
            Ok(v) => match StringPooling::from_value(v) {
                Some(x) => Ok(x),
                None => Err(VcprojError::InvalidFlag("StringPooling".to_owned(), v)),
            },
            Err(e) => Err(e),
        }
    }
}

/// Values of the `ExceptionHandling` attribute and their command-line text.
#[derive(Clone, Copy, Debug, PartialEq, Eq, Structural, Hash)]
pub enum ExceptionHandling {
    _0,
    _1,
    _2,
}

impl ExceptionHandling {
    /// The value for an attribute number.
    pub open spec fn of_value(v: i8) -> Option<ExceptionHandling> {
        if v == 0 {
            Some(ExceptionHandling::_0)
        } else if v == 1 {
            Some(ExceptionHandling::_1)
        } else if v == 2 {
            Some(ExceptionHandling::_2)
        } else {
            None
        }
    }

    /// The command-line text of the value.
    pub open spec fn text(self) -> Seq<char> {
        match self {
            ExceptionHandling::_0 => ""@,
            ExceptionHandling::_1 => "/EHsc"@,
            ExceptionHandling::_2 => "/EHa"@,
        }
    }

    pub fn as_str(&self) -> (r: &'static str)
        ensures
            r@ == self.text(),
    {
        match self {
            ExceptionHandling::_0 => "",
            ExceptionHandling::_1 => "/EHsc",
            ExceptionHandling::_2 => "/EHa",
        }
    }

    pub fn from_value(v: i8) -> (r: Option<ExceptionHandling>)
        ensures
            r == ExceptionHandling::of_value(v),
    {
        if v == 0 {
            Some(ExceptionHandling::_0)
        } else if v == 1 {
            Some(ExceptionHandling::_1)
        } else if v == 2 {
            Some(ExceptionHandling::_2)
        } else {
            None
        }
    }

    /// The value of an attribute text.
    pub open spec fn parse_spec(s: Seq<char>) -> Option<ExceptionHandling> {
        match flag_number(s, false) {
            Some(v) => ExceptionHandling::of_value(v),
            None => None,
        }
    }

    /// The refusal of a text that is not a value of this kind.
    pub open spec fn parse_err(s: Seq<char>) -> XmlErr {
        flag_err("ExceptionHandling"@, s, false)
    }

    pub fn parse(s: &str) -> (r: Result<ExceptionHandling, VcprojError>)
        ensures
            match r {
                Ok(x) => ExceptionHandling::parse_spec(s@) == Some(x),
                Err(e) => ExceptionHandling::parse_spec(s@) is None && err_view(e) == ExceptionHandling::parse_err(s@),
            },
    {
        match parse_flag_number(s, false) {
            Ok(v) => match ExceptionHandling::from_value(v) {
                Some(x) => Ok(x),
                None => Err(VcprojError::InvalidFlag("ExceptionHandling".to_owned(), v)),
            },
            Err(e) => Err(e),
        }
    }
}

/// Values of the `RuntimeLibrary` attribute and their command-line text.
#[derive(Clone, Copy, Debug, PartialEq, Eq, Structural, Hash)]
pub enum RuntimeLibrary {
    _0,
    _1,
    _2,
    _3,
}

impl RuntimeLibrary {
    /// The value for an attribute number.
    pub open spec fn of_value(v: i8) -> Option<RuntimeLibrary> {
        if v == 0 {
            Some(RuntimeLibrary::_0)
        } else if v == 1 {
            Some(RuntimeLibrary::_1)
        } else if v == 2 {
            Some(RuntimeLibrary::_2)
        } else if v == 3 {
            Some(RuntimeLibrary::_3)
        } else {
            None
        }
    }

    /// The command-line text of the value.
    pub open spec fn text(self) -> Seq<char> {
        match self {
            RuntimeLibrary::_0 => "/MT"@,
            RuntimeLibrary::_1 => "/MTd"@,
            RuntimeLibrary::_2 => "/MD"@,
            RuntimeLibrary::_3 => "/MDd"@,
        }
    }

    pub fn as_str(&self) -> (r: &'static str)
        ensures
            r@ == self.text(),
    {
        match self {
            RuntimeLibrary::_0 => "/MT",
            RuntimeLibrary::_1 => "/MTd",
            RuntimeLibrary::_2 => "/MD",
            RuntimeLibrary::_3 => "/MDd",
        }
    }

    pub fn from_value(v: i8) -> (r: Option<RuntimeLibrary>)
        ensures
            r == RuntimeLibrary::of_value(v),
    {
        if v == 0 {
            Some(RuntimeLibrary::_0)
        } else if v == 1 {
            Some(RuntimeLibrary::_1)
        } else if v == 2 {
            Some(RuntimeLibrary::_2)
        } else if v == 3 {
            Some(RuntimeLibrary::_3)
        } else {
            None
        }
    }

    /// The value of an attribute text.
    pub open spec fn parse_spec(s: Seq<char>) -> Option<RuntimeLibrary> {
        match flag_number(s, false) {
            Some(v) => RuntimeLibrary::of_value(v),
            None => None,
        }
    }

    /// The refusal of a text that is not a value of this kind.
    pub open spec fn parse_err(s: Seq<char>) -> XmlErr {
        flag_err("RuntimeLibrary"@, s, false)
    }

    pub fn parse(s: &str) -> (r: Result<RuntimeLibrary, VcprojError>)
        ensures
            match r {
                Ok(x) => RuntimeLibrary::parse_spec(s@) == Some(x),
                Err(e) => RuntimeLibrary::parse_spec(s@) is None && err_view(e) == RuntimeLibrary::parse_err(s@),
            },
    {
        match parse_flag_number(s, false) {
            Ok(v) => match RuntimeLibrary::from_value(v) {
                Some(x) => Ok(x),
                None => Err(VcprojError::InvalidFlag("RuntimeLibrary".to_owned(), v)),
            },
            Err(e) => Err(e),
        }
    }
}

/// Values of the `BufferSecurityCheck` attribute and their command-line text.
#[derive(Clone, Copy, Debug, PartialEq, Eq, Structural, Hash)]
pub enum BufferSecurityCheck {
    _0,
    _1,
}

impl BufferSecurityCheck {
    /// The value for an attribute number.
    pub open spec fn of_value(v: i8) -> Option<BufferSecurityCheck> {
        if v == 0 {
            Some(BufferSecurityCheck::_0)
        } else if v == 1 {
            Some(BufferSecurityCheck::_1)
        } else {
            None
        }
    }

    /// The command-line text of the value.
    pub open spec fn text(self) -> Seq<char> {
        match self {
            BufferSecurityCheck::_0 => "/GS-"@,
            BufferSecurityCheck::_1 => ""@,
        }
    }

    pub fn as_str(&self) -> (r: &'static str)
        ensures
            r@ == self.text(),
    {
        match self {
            BufferSecurityCheck::_0 => "/GS-",
            BufferSecurityCheck::_1 => "",
        }
    }

    pub fn from_value(v: i8) -> (r: Option<BufferSecurityCheck>)
        ensures
            r == BufferSecurityCheck::of_value(v),
    {
        if v == 0 {
            Some(BufferSecurityCheck::_0)
        } else if v == 1 {
            Some(BufferSecurityCheck::_1)
        } else {
            None
        }
    }

    /// The value of an attribute text.
    pub open spec fn parse_spec(s: Seq<char>) -> Option<BufferSecurityCheck> {
        match flag_number(s, true) {
            Some(v) => BufferSecurityCheck::of_value(v),
            None => None,
        }
    }

    /// The refusal of a text that is not a value of this kind.
    pub open spec fn parse_err(s: Seq<char>) -> XmlErr {
        flag_err("BufferSecurityCheck"@, s, true)
    }

    pub fn parse(s: &str) -> (r: Result<BufferSecurityCheck, VcprojError>)
        ensures
            match r {
                Ok(x) => BufferSecurityCheck::parse_spec(s@) == Some(x),
                Err(e) => BufferSecurityCheck::parse_spec(s@) is None && err_view(e) == BufferSecurityCheck::parse_err(s@),
            },
    {
        match parse_flag_number(s, true) {
            Ok(v) => match BufferSecurityCheck::from_value(v) {
                Some(x) => Ok(x),
                None => Err(VcprojError::InvalidFlag("BufferSecurityCheck".to_owned(), v)),
            },
            Err(e) => Err(e),
        }
    }
}

/// Values of the `EnableEnhancedInstructionSet` attribute and their command-line text.
#[derive(Clone, Copy, Debug, PartialEq, Eq, Structural, Hash)]
pub enum EnableEnhancedInstructionSet {
    _0,
    _1,
    _2,
}

impl EnableEnhancedInstructionSet {
    /// The value for an attribute number.
    pub open spec fn of_value(v: i8) -> Option<EnableEnhancedInstructionSet> {
        if v == 0 {
            Some(EnableEnhancedInstructionSet::_0)
        } else if v == 1 {
            Some(EnableEnhancedInstructionSet::_1)
        } else if v == 2 {
            Some(EnableEnhancedInstructionSet::_2)
        } else {
            None
        }
    }

    /// The command-line text of the value.
    pub open spec fn text(self) -> Seq<char> {
        match self {
            EnableEnhancedInstructionSet::_0 => ""@,
            EnableEnhancedInstructionSet::_1 => "/arch:SSE"@,
            EnableEnhancedInstructionSet::_2 => "/arch:SSE2"@,
        }
    }

    pub fn as_str(&self) -> (r: &'static str)
        ensures
            r@ == self.text(),
    {
        match self {
            EnableEnhancedInstructionSet::_0 => "",
            EnableEnhancedInstructionSet::_1 => "/arch:SSE",
            EnableEnhancedInstructionSet::_2 => "/arch:SSE2",
        }
    }

    pub fn from_value(v: i8) -> (r: Option<EnableEnhancedInstructionSet>)
        ensures
            r == EnableEnhancedInstructionSet::of_value(v),
    {
        if v == 0 {
            Some(EnableEnhancedInstructionSet::_0)
        } else if v == 1 {
            Some(EnableEnhancedInstructionSet::_1)
        } else if v == 2 {
            Some(EnableEnhancedInstructionSet::_2)
        } else {
            None
        }
    }

    /// The value of an attribute text.
    pub open spec fn parse_spec(s: Seq<char>) -> Option<EnableEnhancedInstructionSet> {
        match flag_number(s, false) {
            Some(v) => EnableEnhancedInstructionSet::of_value(v),
            None => None,
        }
    }

    /// The refusal of a text that is not a value of this kind.
    pub open spec fn parse_err(s: Seq<char>) -> XmlErr {
        flag_err("EnableEnhancedInstructionSet"@, s, false)
    }

    pub fn parse(s: &str) -> (r: Result<EnableEnhancedInstructionSet, VcprojError>)
        ensures
            match r {
                Ok(x) => EnableEnhancedInstructionSet::parse_spec(s@) == Some(x),
                Err(e) => EnableEnhancedInstructionSet::parse_spec(s@) is None && err_view(e) == EnableEnhancedInstructionSet::parse_err(s@),
            },
    {
        match parse_flag_number(s, false) {
            Ok(v) => match EnableEnhancedInstructionSet::from_value(v) {
                Some(x) => Ok(x),
                None => Err(VcprojError::InvalidFlag("EnableEnhancedInstructionSet".to_owned(), v)),
            },
            Err(e) => Err(e),
        }
    }
}

/// Values of the `FloatingPointModel` attribute and their command-line text.
#[derive(Clone, Copy, Debug, PartialEq, Eq, Structural, Hash)]
pub enum FloatingPointModel {
    _0,
    _1,
    _2,
}

impl FloatingPointModel {
    /// The value for an attribute number.
    pub open spec fn of_value(v: i8) -> Option<FloatingPointModel> {
        if v == 0 {
            Some(FloatingPointModel::_0)
        } else if v == 1 {
            Some(FloatingPointModel::_1)
        } else if v == 2 {
            Some(FloatingPointModel::_2)
        } else {
            None
        }
    }

    /// The command-line text of the value.
    pub open spec fn text(self) -> Seq<char> {
        match self {
            FloatingPointModel::_0 => "/fp:precise"@,
            FloatingPointModel::_1 => "/fp:strict"@,
            FloatingPointModel::_2 => "/fp:fast"@,
        }
    }

    pub fn as_str(&self) -> (r: &'static str)
        ensures
            r@ == self.text(),
    {
        match self {
            FloatingPointModel::_0 => "/fp:precise",
            FloatingPointModel::_1 => "/fp:strict",
            FloatingPointModel::_2 => "/fp:fast",
        }
    }

    pub fn from_value(v: i8) -> (r: Option<FloatingPointModel>)
        ensures
            r == FloatingPointModel::of_value(v),
    {
        if v == 0 {
            Some(FloatingPointModel::_0)
        } else if v == 1 {
            Some(FloatingPointModel::_1)
        } else if v == 2 {
            Some(FloatingPointModel::_2)
        } else {
            None
        }
    }

    /// The value of an attribute text.
    pub open spec fn parse_spec(s: Seq<char>) -> Option<FloatingPointModel> {
        match flag_number(s, false) {
            Some(v) => FloatingPointModel::of_value(v),
            None => None,
        }
    }

    /// The refusal of a text that is not a value of this kind.
    pub open spec fn parse_err(s: Seq<char>) -> XmlErr {
        flag_err("FloatingPointModel"@, s, false)
    }

    pub fn parse(s: &str) -> (r: Result<FloatingPointModel, VcprojError>)
        ensures
            match r {
                Ok(x) => FloatingPointModel::parse_spec(s@) == Some(x),
                Err(e) => FloatingPointModel::parse_spec(s@) is None && err_view(e) == FloatingPointModel::parse_err(s@),
            },
    {
        match parse_flag_number(s, false) {
            Ok(v) => match FloatingPointModel::from_value(v) {
                Some(x) => Ok(x),
                None => Err(VcprojError::InvalidFlag("FloatingPointModel".to_owned(), v)),
            },
            Err(e) => Err(e),
        }
    }
}

/// Values of the `WarningLevel` attribute and their command-line text.
#[derive(Clone, Copy, Debug, PartialEq, Eq, Structural, Hash)]
pub enum WarningLevel {
    _0,
    _1,
    _2,
    _3,
    _4,
}

impl WarningLevel {
    /// The value for an attribute number.
    pub open spec fn of_value(v: i8) -> Option<WarningLevel> {
        if v == 0 {
            Some(WarningLevel::_0)
        } else if v == 1 {
            Some(WarningLevel::_1)
        } else if v == 2 {
            Some(WarningLevel::_2)
        } else if v == 3 {
            Some(WarningLevel::_3)
        } else if v == 4 {
            Some(WarningLevel::_4)
        } else {
            None
        }
    }

    /// The command-line text of the value.
    pub open spec fn text(self) -> Seq<char> {
        match self {
            WarningLevel::_0 => "/W0"@,
            WarningLevel::_1 => "/W1"@,
            WarningLevel::_2 => "/W2"@,
            WarningLevel::_3 => "/W3"@,
            WarningLevel::_4 => "/W4"@,
        }
    }

    pub fn as_str(&self) -> (r: &'static str)
        ensures
            r@ == self.text(),
    {
        match self {
            WarningLevel::_0 => "/W0",
            WarningLevel::_1 => "/W1",
            WarningLevel::_2 => "/W2",
            WarningLevel::_3 => "/W3",
            WarningLevel::_4 => "/W4",
        }
    }

    pub fn from_value(v: i8) -> (r: Option<WarningLevel>)
        ensures
            r == WarningLevel::of_value(v),
    {
        if v == 0 {
            Some(WarningLevel::_0)
        } else if v == 1 {
            Some(WarningLevel::_1)
        } else if v == 2 {
            Some(WarningLevel::_2)
        } else if v == 3 {
            Some(WarningLevel::_3)
        } else if v == 4 {
            Some(WarningLevel::_4)
        } else {
            None
        }
    }

    /// The value of an attribute text.
    pub open spec fn parse_spec(s: Seq<char>) -> Option<WarningLevel> {
        match flag_number(s, false) {
            Some(v) => WarningLevel::of_value(v),
            None => None,
        }
    }

    /// The refusal of a text that is not a value of this kind.
    pub open spec fn parse_err(s: Seq<char>) -> XmlErr {
        flag_err("WarningLevel"@, s, false)
    }

    pub fn parse(s: &str) -> (r: Result<WarningLevel, VcprojError>)
        ensures
            match r {
                Ok(x) => WarningLevel::parse_spec(s@) == Some(x),
                Err(e) => WarningLevel::parse_spec(s@) is None && err_view(e) == WarningLevel::parse_err(s@),
            },
    {
        match parse_flag_number(s, false) {
            Ok(v) => match WarningLevel::from_value(v) {
                Some(x) => Ok(x),
                None => Err(VcprojError::InvalidFlag("WarningLevel".to_owned(), v)),
            },
            Err(e) => Err(e),
        }
    }
}

/// Values of the `DebugInformationFormat` attribute and their command-line text.
#[derive(Clone, Copy, Debug, PartialEq, Eq, Structural, Hash)]
pub enum DebugInformationFormat {
    _0,
    _1,
    _3,
    _4,
}

impl DebugInformationFormat {
    /// The value for an attribute number.
    pub open spec fn of_value(v: i8) -> Option<DebugInformationFormat> {
        if v == 0 {
            Some(DebugInformationFormat::_0)
        } else if v == 1 {
            Some(DebugInformationFormat::_1)
        } else if v == 3 {
            Some(DebugInformationFormat::_3)
        } else if v == 4 {
            Some(DebugInformationFormat::_4)
        } else {
            None
        }
    }

    /// The command-line text of the value.
    pub open spec fn text(self) -> Seq<char> {
        match self {
            DebugInformationFormat::_0 => ""@,
            DebugInformationFormat::_1 => "/Z7"@,
            DebugInformationFormat::_3 => "/Zi"@,
            DebugInformationFormat::_4 => "/ZI"@,
        }
    }

    pub fn as_str(&self) -> (r: &'static str)
        ensures
            r@ == self.text(),
    {
        match self {
            DebugInformationFormat::_0 => "",
            DebugInformationFormat::_1 => "/Z7",
            DebugInformationFormat::_3 => "/Zi",
            DebugInformationFormat::_4 => "/ZI",
        }
    }

    pub fn from_value(v: i8) -> (r: Option<DebugInformationFormat>)
        ensures
            r == DebugInformationFormat::of_value(v),
    {
        if v == 0 {
            Some(DebugInformationFormat::_0)
        } else if v == 1 {
            Some(DebugInformationFormat::_1)
        } else if v == 3 {
            Some(DebugInformationFormat::_3)
        } else if v == 4 {
            Some(DebugInformationFormat::_4)
        } else {
            None
        }
    }

    /// The value of an attribute text.
    pub open spec fn parse_spec(s: Seq<char>) -> Option<DebugInformationFormat> {
        match flag_number(s, false) {
            Some(v) => DebugInformationFormat::of_value(v),
            None => None,
        }
    }

    /// The refusal of a text that is not a value of this kind.
    pub open spec fn parse_err(s: Seq<char>) -> XmlErr {
        flag_err("DebugInformationFormat"@, s, false)
    }

    pub fn parse(s: &str) -> (r: Result<DebugInformationFormat, VcprojError>)
        ensures
            match r {
                Ok(x) => DebugInformationFormat::parse_spec(s@) == Some(x),
                Err(e) => DebugInformationFormat::parse_spec(s@) is None && err_view(e) == DebugInformationFormat::parse_err(s@),
            },
    {
        match parse_flag_number(s, false) {
            Ok(v) => match DebugInformationFormat::from_value(v) {
                Some(x) => Ok(x),
                None => Err(VcprojError::InvalidFlag("DebugInformationFormat".to_owned(), v)),
            },
            Err(e) => Err(e),
        }
    }
}

/// Values of the `UsePrecompiledHeader` attribute and their command-line text.
#[derive(Clone, Copy, Debug, PartialEq, Eq, Structural, Hash)]
pub enum UsePrecompiledHeader {
    _0,
    _1,
    _2,
    _3,
}

impl UsePrecompiledHeader {
    /// The value for an attribute number.
    pub open spec fn of_value(v: i8) -> Option<UsePrecompiledHeader> {
        if v == 0 {
            Some(UsePrecompiledHeader::_0)
        } else if v == 1 {
            Some(UsePrecompiledHeader::_1)
        } else if v == 2 {
            Some(UsePrecompiledHeader::_2)
        } else if v == 3 {
            Some(UsePrecompiledHeader::_3)
        } else {
            None
        }
    }

    /// The command-line text of the value.
    pub open spec fn text(self) -> Seq<char> {
        match self {
            UsePrecompiledHeader::_0 => ""@,
            UsePrecompiledHeader::_1 => "/Yc"@,
            UsePrecompiledHeader::_2 => "/Yu"@,
            UsePrecompiledHeader::_3 => "/YX"@,
        }
    }

    pub fn as_str(&self) -> (r: &'static str)
        ensures
            r@ == self.text(),
    {
        match self {
            UsePrecompiledHeader::_0 => "",
            UsePrecompiledHeader::_1 => "/Yc",
            UsePrecompiledHeader::_2 => "/Yu",
            UsePrecompiledHeader::_3 => "/YX",
        }
    }

    pub fn from_value(v: i8) -> (r: Option<UsePrecompiledHeader>)
        ensures
            r == UsePrecompiledHeader::of_value(v),
    {
        if v == 0 {
            Some(UsePrecompiledHeader::_0)
        } else if v == 1 {
            Some(UsePrecompiledHeader::_1)
        } else if v == 2 {
            Some(UsePrecompiledHeader::_2)
        } else if v == 3 {
            Some(UsePrecompiledHeader::_3)
        } else {
            None
        }
    }

    /// The value of an attribute text.
    pub open spec fn parse_spec(s: Seq<char>) -> Option<UsePrecompiledHeader> {
        match flag_number(s, false) {
            Some(v) => UsePrecompiledHeader::of_value(v),
            None => None,
        }
    }

    /// The refusal of a text that is not a value of this kind.
    pub open spec fn parse_err(s: Seq<char>) -> XmlErr {
        flag_err("UsePrecompiledHeader"@, s, false)
    }

    pub fn parse(s: &str) -> (r: Result<UsePrecompiledHeader, VcprojError>)
        ensures
            match r {
                Ok(x) => UsePrecompiledHeader::parse_spec(s@) == Some(x),
                Err(e) => UsePrecompiledHeader::parse_spec(s@) is None && err_view(e) == UsePrecompiledHeader::parse_err(s@),
            },
    {
        match parse_flag_number(s, false) {
            Ok(v) => match UsePrecompiledHeader::from_value(v) {
                Some(x) => Ok(x),
                None => Err(VcprojError::InvalidFlag("UsePrecompiledHeader".to_owned(), v)),
            },
            Err(e) => Err(e),
        }
    }
}

/// Values of the `CompileAs` attribute and their command-line text.
#[derive(Clone, Copy, Debug, PartialEq, Eq, Structural, Hash)]
pub enum CompileAs {
    _0,
    _1,
    _2,
}

impl CompileAs {
    /// The value for an attribute number.
    pub open spec fn of_value(v: i8) -> Option<CompileAs> {
        if v == 0 {
            Some(CompileAs::_0)
        } else if v == 1 {
            Some(CompileAs::_1)
        } else if v == 2 {
            Some(CompileAs::_2)
        } else {
            None
        }
    }

    /// The command-line text of the value.
    pub open spec fn text(self) -> Seq<char> {
        match self {
            CompileAs::_0 => ""@,
            CompileAs::_1 => "/TC"@,
            CompileAs::_2 => "/TP"@,
        }
    }

    pub fn as_str(&self) -> (r: &'static str)
        ensures
            r@ == self.text(),
    {
        match self {
            CompileAs::_0 => "",
            CompileAs::_1 => "/TC",
            CompileAs::_2 => "/TP",
        }
    }

    pub fn from_value(v: i8) -> (r: Option<CompileAs>)
        ensures
            r == CompileAs::of_value(v),
    {
        if v == 0 {
            Some(CompileAs::_0)
        } else if v == 1 {
            Some(CompileAs::_1)
        } else if v == 2 {
            Some(CompileAs::_2)
        } else {
            None
        }
    }

    /// The value of an attribute text.
    pub open spec fn parse_spec(s: Seq<char>) -> Option<CompileAs> {
        match flag_number(s, false) {
            Some(v) => CompileAs::of_value(v),
            None => None,
        }
    }

    /// The refusal of a text that is not a value of this kind.
    pub open spec fn parse_err(s: Seq<char>) -> XmlErr {
        flag_err("CompileAs"@, s, false)
    }

    pub fn parse(s: &str) -> (r: Result<CompileAs, VcprojError>)
        ensures
            match r {
                Ok(x) => CompileAs::parse_spec(s@) == Some(x),
                Err(e) => CompileAs::parse_spec(s@) is None && err_view(e) == CompileAs::parse_err(s@),
            },
    {
        match parse_flag_number(s, false) {
            Ok(v) => match CompileAs::from_value(v) {
                Some(x) => Ok(x),
                None => Err(VcprojError::InvalidFlag("CompileAs".to_owned(), v)),
            },
            Err(e) => Err(e),
        }
    }
}

/// Values of the `RuntimeTypeInfo` attribute and their command-line text.
#[derive(Clone, Copy, Debug, PartialEq, Eq, Structural, Hash)]
pub enum RuntimeTypeInfo {
    _0,
    _1,
}

impl RuntimeTypeInfo {
    /// The value for an attribute number.
    pub open spec fn of_value(v: i8) -> Option<RuntimeTypeInfo> {
        if v == 0 {
            Some(RuntimeTypeInfo::_0)
        } else if v == 1 {
            Some(RuntimeTypeInfo::_1)
        } else {
            None
        }
    }

    /// The command-line text of the value.
    pub open spec fn text(self) -> Seq<char> {
        match self {
            RuntimeTypeInfo::_0 => "/GR-"@,
            RuntimeTypeInfo::_1 => ""@,
        }
    }

    pub fn as_str(&self) -> (r: &'static str)
        ensures
            r@ == self.text(),
    {
        match self {
            RuntimeTypeInfo::_0 => "/GR-",
            RuntimeTypeInfo::_1 => "",
        }
    }

    pub fn from_value(v: i8) -> (r: Option<RuntimeTypeInfo>)
        ensures
            r == RuntimeTypeInfo::of_value(v),
    {
        if v == 0 {
            Some(RuntimeTypeInfo::_0)
        } else if v == 1 {
            Some(RuntimeTypeInfo::_1)
        } else {
            None
        }
    }

    /// The value of an attribute text.
    pub open spec fn parse_spec(s: Seq<char>) -> Option<RuntimeTypeInfo> {
        match flag_number(s, true) {
            Some(v) => RuntimeTypeInfo::of_value(v),
            None => None,
        }
    }

    /// The refusal of a text that is not a value of this kind.
    pub open spec fn parse_err(s: Seq<char>) -> XmlErr {
        flag_err("RuntimeTypeInfo"@, s, true)
    }

    pub fn parse(s: &str) -> (r: Result<RuntimeTypeInfo, VcprojError>)
        ensures
            match r {
                Ok(x) => RuntimeTypeInfo::parse_spec(s@) == Some(x),
                Err(e) => RuntimeTypeInfo::parse_spec(s@) is None && err_view(e) == RuntimeTypeInfo::parse_err(s@),
            },
    {
        match parse_flag_number(s, true) {
            Ok(v) => match RuntimeTypeInfo::from_value(v) {
                Some(x) => Ok(x),
                None => Err(VcprojError::InvalidFlag("RuntimeTypeInfo".to_owned(), v)),
            },
            Err(e) => Err(e),
        }
    }
}

/// Values of the `MinimalRebuild` attribute and their command-line text.
#[derive(Clone, Copy, Debug, PartialEq, Eq, Structural, Hash)]
pub enum MinimalRebuild {
    _0,
    _1,
}

impl MinimalRebuild {
    /// The value for an attribute number.
    pub open spec fn of_value(v: i8) -> Option<MinimalRebuild> {
        if v == 0 {
            Some(MinimalRebuild::_0)
        } else if v == 1 {
            Some(MinimalRebuild::_1)
        } else {
            None
        }
    }

    /// The command-line text of the value.
    pub open spec fn text(self) -> Seq<char> {
        match self {
            MinimalRebuild::_0 => ""@,
            MinimalRebuild::_1 => "/Gm"@,
        }
    }

    pub fn as_str(&self) -> (r: &'static str)
        ensures
            r@ == self.text(),
    {
        match self {
            MinimalRebuild::_0 => "",
            MinimalRebuild::_1 => "/Gm",
        }
    }

    pub fn from_value(v: i8) -> (r: Option<MinimalRebuild>)
        ensures
            r == MinimalRebuild::of_value(v),
    {
        if v == 0 {
            Some(MinimalRebuild::_0)
        } else if v == 1 {
            Some(MinimalRebuild::_1)
        } else {
            None
        }
    }

    /// The value of an attribute text.
    pub open spec fn parse_spec(s: Seq<char>) -> Option<MinimalRebuild> {
        match flag_number(s, true) {
            Some(v) => MinimalRebuild::of_value(v),
            None => None,
        }
    }

    /// The refusal of a text that is not a value of this kind.
    pub open spec fn parse_err(s: Seq<char>) -> XmlErr {
        flag_err("MinimalRebuild"@, s, true)
    }

    pub fn parse(s: &str) -> (r: Result<MinimalRebuild, VcprojError>)
        ensures
            match r {
                Ok(x) => MinimalRebuild::parse_spec(s@) == Some(x),
                Err(e) => MinimalRebuild::parse_spec(s@) is None && err_view(e) == MinimalRebuild::parse_err(s@),
            },
    {
        match parse_flag_number(s, true) {
            Ok(v) => match MinimalRebuild::from_value(v) {
                Some(x) => Ok(x),
                None => Err(VcprojError::InvalidFlag("MinimalRebuild".to_owned(), v)),
            },
            Err(e) => Err(e),
        }
    }
}

/// Values of the `EnableFunctionLevelLinking` attribute and their command-line text.
#[derive(Clone, Copy, Debug, PartialEq, Eq, Structural, Hash)]
pub enum EnableFunctionLevelLinking {
    _0,
    _1,
}

impl EnableFunctionLevelLinking {
    /// The value for an attribute number.
    pub open spec fn of_value(v: i8) -> Option<EnableFunctionLevelLinking> {
        if v == 0 {
            Some(EnableFunctionLevelLinking::_0)
        } else if v == 1 {
            Some(EnableFunctionLevelLinking::_1)
        } else {
            None
        }
    }

    /// The command-line text of the value.
    pub open spec fn text(self) -> Seq<char> {
        match self {
            EnableFunctionLevelLinking::_0 => ""@,
            EnableFunctionLevelLinking::_1 => "/Gy"@,
        }
    }

    pub fn as_str(&self) -> (r: &'static str)
        ensures
            r@ == self.text(),
    {
        match self {
            EnableFunctionLevelLinking::_0 => "",
            EnableFunctionLevelLinking::_1 => "/Gy",
        }
    }

    pub fn from_value(v: i8) -> (r: Option<EnableFunctionLevelLinking>)
        ensures
            r == EnableFunctionLevelLinking::of_value(v),
    {
        if v == 0 {
            Some(EnableFunctionLevelLinking::_0)
        } else if v == 1 {
            Some(EnableFunctionLevelLinking::_1)
        } else {
            None
        }
    }

    /// The value of an attribute text.
    pub open spec fn parse_spec(s: Seq<char>) -> Option<EnableFunctionLevelLinking> {
        match flag_number(s, true) {
            Some(v) => EnableFunctionLevelLinking::of_value(v),
            None => None,
        }
    }

    /// The refusal of a text that is not a value of this kind.
    pub open spec fn parse_err(s: Seq<char>) -> XmlErr {
        flag_err("EnableFunctionLevelLinking"@, s, true)
    }

    pub fn parse(s: &str) -> (r: Result<EnableFunctionLevelLinking, VcprojError>)
        ensures
            match r {
                Ok(x) => EnableFunctionLevelLinking::parse_spec(s@) == Some(x),
                Err(e) => EnableFunctionLevelLinking::parse_spec(s@) is None && err_view(e) == EnableFunctionLevelLinking::parse_err(s@),
            },
    {
        match parse_flag_number(s, true) {
            Ok(v) => match EnableFunctionLevelLinking::from_value(v) {
                Some(x) => Ok(x),
                None => Err(VcprojError::InvalidFlag("EnableFunctionLevelLinking".to_owned(), v)),
            },
            Err(e) => Err(e),
        }
    }
}

/// Values of the `SmallerTypeCheck` attribute and their command-line text.
#[derive(Clone, Copy, Debug, PartialEq, Eq, Structural, Hash)]
pub enum SmallerTypeCheck {
    _0,
    _1,
}

impl SmallerTypeCheck {
    /// The value for an attribute number.
    pub open spec fn of_value(v: i8) -> Option<SmallerTypeCheck> {
        if v == 0 {
            Some(SmallerTypeCheck::_0)
        } else if v == 1 {
            Some(SmallerTypeCheck::_1)
        } else {
            None
        }
    }

    /// The command-line text of the value.
    pub open spec fn text(self) -> Seq<char> {
        match self {
            SmallerTypeCheck::_0 => ""@,
            SmallerTypeCheck::_1 => "/RTCc"@,
        }
    }

    pub fn as_str(&self) -> (r: &'static str)
        ensures
            r@ == self.text(),
    {
        match self {
            SmallerTypeCheck::_0 => "",
            SmallerTypeCheck::_1 => "/RTCc",
        }
    }

    pub fn from_value(v: i8) -> (r: Option<SmallerTypeCheck>)
        ensures
            r == SmallerTypeCheck::of_value(v),
    {
        if v == 0 {
            Some(SmallerTypeCheck::_0)
        } else if v == 1 {
            Some(SmallerTypeCheck::_1)
        } else {
            None
        }
    }

    /// The value of an attribute text.
    pub open spec fn parse_spec(s: Seq<char>) -> Option<SmallerTypeCheck> {
        match flag_number(s, true) {
            Some(v) => SmallerTypeCheck::of_value(v),
            None => None,
        }
    }

    /// The refusal of a text that is not a value of this kind.
    pub open spec fn parse_err(s: Seq<char>) -> XmlErr {
        flag_err("SmallerTypeCheck"@, s, true)
    }

    pub fn parse(s: &str) -> (r: Result<SmallerTypeCheck, VcprojError>)
        ensures
            match r {
                Ok(x) => SmallerTypeCheck::parse_spec(s@) == Some(x),
                Err(e) => SmallerTypeCheck::parse_spec(s@) is None && err_view(e) == SmallerTypeCheck::parse_err(s@),
            },
    {
        match parse_flag_number(s, true) {
            Ok(v) => match SmallerTypeCheck::from_value(v) {
                Some(x) => Ok(x),
                None => Err(VcprojError::InvalidFlag("SmallerTypeCheck".to_owned(), v)),
            },
            Err(e) => Err(e),
        }
    }
}

/// Values of the `FloatingPointExceptions` attribute and their command-line text.
#[derive(Clone, Copy, Debug, PartialEq, Eq, Structural, Hash)]
pub enum FloatingPointExceptions {
    _0,
    _1,
}

impl FloatingPointExceptions {
    /// The value for an attribute number.
    pub open spec fn of_value(v: i8) -> Option<FloatingPointExceptions> {
        if v == 0 {
            Some(FloatingPointExceptions::_0)
        } else if v == 1 {
            Some(FloatingPointExceptions::_1)
        } else {
            None
        }
    }

    /// The command-line text of the value.
    pub open spec fn text(self) -> Seq<char> {
        match self {
            FloatingPointExceptions::_0 => ""@,
            FloatingPointExceptions::_1 => "/fp:except"@,
        }
    }

    pub fn as_str(&self) -> (r: &'static str)
        ensures
            r@ == self.text(),
    {
        match self {
            FloatingPointExceptions::_0 => "",
            FloatingPointExceptions::_1 => "/fp:except",
        }
    }

    pub fn from_value(v: i8) -> (r: Option<FloatingPointExceptions>)
        ensures
            r == FloatingPointExceptions::of_value(v),
    {
        if v == 0 {
            Some(FloatingPointExceptions::_0)
        } else if v == 1 {
            Some(FloatingPointExceptions::_1)
        } else {
            None
        }
    }

    /// The value of an attribute text.
    pub open spec fn parse_spec(s: Seq<char>) -> Option<FloatingPointExceptions> {
        match flag_number(s, true) {
            Some(v) => FloatingPointExceptions::of_value(v),
            None => None,
        }
    }

    /// The refusal of a text that is not a value of this kind.
    pub open spec fn parse_err(s: Seq<char>) -> XmlErr {
        flag_err("FloatingPointExceptions"@, s, true)
    }

    pub fn parse(s: &str) -> (r: Result<FloatingPointExceptions, VcprojError>)
        ensures
            match r {
                Ok(x) => FloatingPointExceptions::parse_spec(s@) == Some(x),
                Err(e) => FloatingPointExceptions::parse_spec(s@) is None && err_view(e) == FloatingPointExceptions::parse_err(s@),
            },
    {
        match parse_flag_number(s, true) {
            Ok(v) => match FloatingPointExceptions::from_value(v) {
                Some(x) => Ok(x),
                None => Err(VcprojError::InvalidFlag("FloatingPointExceptions".to_owned(), v)),
            },
            Err(e) => Err(e),
        }
    }
}

/// Values of the `ForceConformanceInForLoopScope` attribute and their command-line text.
#[derive(Clone, Copy, Debug, PartialEq, Eq, Structural, Hash)]
pub enum ForceConformanceInForLoopScope {
    _0,
    _1,
}

impl ForceConformanceInForLoopScope {
    /// The value for an attribute number.
    pub open spec fn of_value(v: i8) -> Option<ForceConformanceInForLoopScope> {
        if v == 0 {
            Some(ForceConformanceInForLoopScope::_0)
        } else if v == 1 {
            Some(ForceConformanceInForLoopScope::_1)
        } else {
            None
        }
    }

    /// The command-line text of the value.
    pub open spec fn text(self) -> Seq<char> {
        match self {
            ForceConformanceInForLoopScope::_0 => "/Zc:forScope-"@,
            ForceConformanceInForLoopScope::_1 => ""@,
        }
    }

    pub fn as_str(&self) -> (r: &'static str)
        ensures
            r@ == self.text(),
    {
        match self {
            ForceConformanceInForLoopScope::_0 => "/Zc:forScope-",
            ForceConformanceInForLoopScope::_1 => "",
        }
    }

    pub fn from_value(v: i8) -> (r: Option<ForceConformanceInForLoopScope>)
        ensures
            r == ForceConformanceInForLoopScope::of_value(v),
    {
        if v == 0 {
            Some(ForceConformanceInForLoopScope::_0)
        } else if v == 1 {
            Some(ForceConformanceInForLoopScope::_1)
        } else {
            None
        }
    }

    /// The value of an attribute text.
    pub open spec fn parse_spec(s: Seq<char>) -> Option<ForceConformanceInForLoopScope> {
        match flag_number(s, true) {
            Some(v) => ForceConformanceInForLoopScope::of_value(v),
            None => None,
        }
    }

    /// The refusal of a text that is not a value of this kind.
    pub open spec fn parse_err(s: Seq<char>) -> XmlErr {
        flag_err("ForceConformanceInForLoopScope"@, s, true)
    }

    pub fn parse(s: &str) -> (r: Result<ForceConformanceInForLoopScope, VcprojError>)
        ensures
            match r {
                Ok(x) => ForceConformanceInForLoopScope::parse_spec(s@) == Some(x),
                Err(e) => ForceConformanceInForLoopScope::parse_spec(s@) is None && err_view(e) == ForceConformanceInForLoopScope::parse_err(s@),
            },
    {
        match parse_flag_number(s, true) {
            Ok(v) => match ForceConformanceInForLoopScope::from_value(v) {
                Some(x) => Ok(x),
                None => Err(VcprojError::InvalidFlag("ForceConformanceInForLoopScope".to_owned(), v)),
            },
            Err(e) => Err(e),
        }
    }
}

/// Values of the `ShowIncludes` attribute and their command-line text.
#[derive(Clone, Copy, Debug, PartialEq, Eq, Structural, Hash)]
pub enum ShowIncludes {
    _0,
    _1,
}

impl ShowIncludes {
    /// The value for an attribute number.
    pub open spec fn of_value(v: i8) -> Option<ShowIncludes> {
        if v == 0 {
            Some(ShowIncludes::_0)
        } else if v == 1 {
            Some(ShowIncludes::_1)
        } else {
            None
        }
    }

    /// The command-line text of the value.
    pub open spec fn text(self) -> Seq<char> {
        match self {
            ShowIncludes::_0 => ""@,
            ShowIncludes::_1 => "/showIncludes"@,
        }
    }

    pub fn as_str(&self) -> (r: &'static str)
        ensures
            r@ == self.text(),
    {
        match self {
            ShowIncludes::_0 => "",
            ShowIncludes::_1 => "/showIncludes",
        }
    }

    pub fn from_value(v: i8) -> (r: Option<ShowIncludes>)
        ensures
            r == ShowIncludes::of_value(v),
    {
        if v == 0 {
            Some(ShowIncludes::_0)
        } else if v == 1 {
            Some(ShowIncludes::_1)
        } else {
            None
        }
    }

    /// The value of an attribute text.
    pub open spec fn parse_spec(s: Seq<char>) -> Option<ShowIncludes> {
        match flag_number(s, true) {
            Some(v) => ShowIncludes::of_value(v),
            None => None,
        }
    }

    /// The refusal of a text that is not a value of this kind.
    pub open spec fn parse_err(s: Seq<char>) -> XmlErr {
        flag_err("ShowIncludes"@, s, true)
    }

    pub fn parse(s: &str) -> (r: Result<ShowIncludes, VcprojError>)
        ensures
            match r {
                Ok(x) => ShowIncludes::parse_spec(s@) == Some(x),
                Err(e) => ShowIncludes::parse_spec(s@) is None && err_view(e) == ShowIncludes::parse_err(s@),
            },
    {
        match parse_flag_number(s, true) {
            Ok(v) => match ShowIncludes::from_value(v) {
                Some(x) => Ok(x),
                None => Err(VcprojError::InvalidFlag("ShowIncludes".to_owned(), v)),
            },
            Err(e) => Err(e),
        }
    }
}

/// Values of the `SuppressStartupBanner` attribute and their command-line text.
#[derive(Clone, Copy, Debug, PartialEq, Eq, Structural, Hash)]
pub enum SuppressStartupBanner {
    _0,
    _1,
}

impl SuppressStartupBanner {
    /// The value for an attribute number.
    pub open spec fn of_value(v: i8) -> Option<SuppressStartupBanner> {
        if v == 0 {
            Some(SuppressStartupBanner::_0)
        } else if v == 1 {
            Some(SuppressStartupBanner::_1)
        } else {
            None
        }
    }

    /// The command-line text of the value.
    pub open spec fn text(self) -> Seq<char> {
        match self {
            SuppressStartupBanner::_0 => ""@,
            SuppressStartupBanner::_1 => "/nologo"@,
        }
    }

    pub fn as_str(&self) -> (r: &'static str)
        ensures
            r@ == self.text(),
    {
        match self {
            SuppressStartupBanner::_0 => "",
            SuppressStartupBanner::_1 => "/nologo",
        }
    }

    pub fn from_value(v: i8) -> (r: Option<SuppressStartupBanner>)
        ensures
            r == SuppressStartupBanner::of_value(v),
    {
        if v == 0 {
            Some(SuppressStartupBanner::_0)
        } else if v == 1 {
            Some(SuppressStartupBanner::_1)
        } else {
            None
        }
    }

    /// The value of an attribute text.
    pub open spec fn parse_spec(s: Seq<char>) -> Option<SuppressStartupBanner> {
        match flag_number(s, true) {
            Some(v) => SuppressStartupBanner::of_value(v),
            None => None,
        }
    }

    /// The refusal of a text that is not a value of this kind.
    pub open spec fn parse_err(s: Seq<char>) -> XmlErr {
        flag_err("SuppressStartupBanner"@, s, true)
    }

    pub fn parse(s: &str) -> (r: Result<SuppressStartupBanner, VcprojError>)
        ensures
            match r {
                Ok(x) => SuppressStartupBanner::parse_spec(s@) == Some(x),
                Err(e) => SuppressStartupBanner::parse_spec(s@) is None && err_view(e) == SuppressStartupBanner::parse_err(s@),
            },
    {
        match parse_flag_number(s, true) {
            Ok(v) => match SuppressStartupBanner::from_value(v) {
                Some(x) => Ok(x),
                None => Err(VcprojError::InvalidFlag("SuppressStartupBanner".to_owned(), v)),
            },
            Err(e) => Err(e),
        }
    }
}

/// Values of the `BasicRuntimeChecks` attribute and their command-line text.
#[derive(Clone, Copy, Debug, PartialEq, Eq, Structural, Hash)]
pub enum BasicRuntimeChecks {
    _0,
    _1,
    _2,
    _3,
}

impl BasicRuntimeChecks {
    /// The value for an attribute number.
    pub open spec fn of_value(v: i8) -> Option<BasicRuntimeChecks> {
        if v == 0 {
            Some(BasicRuntimeChecks::_0)
        } else if v == 1 {
            Some(BasicRuntimeChecks::_1)
        } else if v == 2 {
            Some(BasicRuntimeChecks::_2)
        } else if v == 3 {
            Some(BasicRuntimeChecks::_3)
        } else {
            None
        }
    }

    /// The command-line text of the value.
    pub open spec fn text(self) -> Seq<char> {
        match self {
            BasicRuntimeChecks::_0 => ""@,
            BasicRuntimeChecks::_1 => "/RTCs"@,
            BasicRuntimeChecks::_2 => "/RTCu"@,
            BasicRuntimeChecks::_3 => "/RTC1"@,
        }
    }

    pub fn as_str(&self) -> (r: &'static str)
        ensures
            r@ == self.text(),
    {
        match self {
            BasicRuntimeChecks::_0 => "",
            BasicRuntimeChecks::_1 => "/RTCs",
            BasicRuntimeChecks::_2 => "/RTCu",
            BasicRuntimeChecks::_3 => "/RTC1",
        }
    }

    pub fn from_value(v: i8) -> (r: Option<BasicRuntimeChecks>)
        ensures
            r == BasicRuntimeChecks::of_value(v),
    {
        if v == 0 {
            Some(BasicRuntimeChecks::_0)
        } else if v == 1 {
            Some(BasicRuntimeChecks::_1)
        } else if v == 2 {
            Some(BasicRuntimeChecks::_2)
        } else if v == 3 {
            Some(BasicRuntimeChecks::_3)
        } else {
            None
        }
    }

    /// The value of an attribute text.
    pub open spec fn parse_spec(s: Seq<char>) -> Option<BasicRuntimeChecks> {
        match flag_number(s, false) {
            Some(v) => BasicRuntimeChecks::of_value(v),
            None => None,
        }
    }

    /// The refusal of a text that is not a value of this kind.
    pub open spec fn parse_err(s: Seq<char>) -> XmlErr {
        flag_err("BasicRuntimeChecks"@, s, false)
    }

    pub fn parse(s: &str) -> (r: Result<BasicRuntimeChecks, VcprojError>)
        ensures
            match r {
                Ok(x) => BasicRuntimeChecks::parse_spec(s@) == Some(x),
                Err(e) => BasicRuntimeChecks::parse_spec(s@) is None && err_view(e) == BasicRuntimeChecks::parse_err(s@),
            },
    {
        match parse_flag_number(s, false) {
            Ok(v) => match BasicRuntimeChecks::from_value(v) {
                Some(x) => Ok(x),
                None => Err(VcprojError::InvalidFlag("BasicRuntimeChecks".to_owned(), v)),
            },
            Err(e) => Err(e),
        }
    }
}

/// Values of the `BrowseInformation` attribute and their command-line text.
#[derive(Clone, Copy, Debug, PartialEq, Eq, Structural, Hash)]
pub enum BrowseInformation {
    _0,
    _1,
    _2,
}

impl BrowseInformation {
    /// The value for an attribute number.
    pub open spec fn of_value(v: i8) -> Option<BrowseInformation> {
        if v == 0 {
            Some(BrowseInformation::_0)
        } else if v == 1 {
            Some(BrowseInformation::_1)
        } else if v == 2 {
            Some(BrowseInformation::_2)
        } else {
            None
        }
    }

    /// The command-line text of the value.
    pub open spec fn text(self) -> Seq<char> {
        match self {
            BrowseInformation::_0 => ""@,
            BrowseInformation::_1 => "/FR"@,
            BrowseInformation::_2 => "/Fr"@,
        }
    }

    pub fn as_str(&self) -> (r: &'static str)
        ensures
            r@ == self.text(),
    {
        match self {
            BrowseInformation::_0 => "",
            BrowseInformation::_1 => "/FR",
            BrowseInformation::_2 => "/Fr",
        }
    }

    pub fn from_value(v: i8) -> (r: Option<BrowseInformation>)
        ensures
            r == BrowseInformation::of_value(v),
    {
        if v == 0 {
            Some(BrowseInformation::_0)
        } else if v == 1 {
            Some(BrowseInformation::_1)
        } else if v == 2 {
            Some(BrowseInformation::_2)
        } else {
            None
        }
    }

    /// The value of an attribute text.
    pub open spec fn parse_spec(s: Seq<char>) -> Option<BrowseInformation> {
        match flag_number(s, false) {
            Some(v) => BrowseInformation::of_value(v),
            None => None,
        }
    }

    /// The refusal of a text that is not a value of this kind.
    pub open spec fn parse_err(s: Seq<char>) -> XmlErr {
        flag_err("BrowseInformation"@, s, false)
    }

    pub fn parse(s: &str) -> (r: Result<BrowseInformation, VcprojError>)
        ensures
            match r {
                Ok(x) => BrowseInformation::parse_spec(s@) == Some(x),
                Err(e) => BrowseInformation::parse_spec(s@) is None && err_view(e) == BrowseInformation::parse_err(s@),
            },
    {
        match parse_flag_number(s, false) {
            Ok(v) => match BrowseInformation::from_value(v) {
                Some(x) => Ok(x),
                None => Err(VcprojError::InvalidFlag("BrowseInformation".to_owned(), v)),
            },
            Err(e) => Err(e),
        }
    }
}

/// Values of the `CallingConvention` attribute and their command-line text.
#[derive(Clone, Copy, Debug, PartialEq, Eq, Structural, Hash)]
pub enum CallingConvention {
    _0,
    _1,
    _2,
}

impl CallingConvention {
    /// The value for an attribute number.
    pub open spec fn of_value(v: i8) -> Option<CallingConvention> {
        if v == 0 {
            Some(CallingConvention::_0)
        } else if v == 1 {
            Some(CallingConvention::_1)
        } else if v == 2 {
            Some(CallingConvention::_2)
        } else {
            None
        }
    }

    /// The command-line text of the value.
    pub open spec fn text(self) -> Seq<char> {
        match self {
            CallingConvention::_0 => "/Gd"@,
            CallingConvention::_1 => "/Gr"@,
            CallingConvention::_2 => "/Gz"@,
        }
    }

    pub fn as_str(&self) -> (r: &'static str)
        ensures
            r@ == self.text(),
    {
        match self {
            CallingConvention::_0 => "/Gd",
            CallingConvention::_1 => "/Gr",
            CallingConvention::_2 => "/Gz",
        }
    }

    pub fn from_value(v: i8) -> (r: Option<CallingConvention>)
        ensures
            r == CallingConvention::of_value(v),
    {
        if v == 0 {
            Some(CallingConvention::_0)
        } else if v == 1 {
            Some(CallingConvention::_1)
        } else if v == 2 {
            Some(CallingConvention::_2)
        } else {
            None
        }
    }

    /// The value of an attribute text.
    pub open spec fn parse_spec(s: Seq<char>) -> Option<CallingConvention> {
        match flag_number(s, false) {
            Some(v) => CallingConvention::of_value(v),
            None => None,
        }
    }

    /// The refusal of a text that is not a value of this kind.
    pub open spec fn parse_err(s: Seq<char>) -> XmlErr {
        flag_err("CallingConvention"@, s, false)
    }

    pub fn parse(s: &str) -> (r: Result<CallingConvention, VcprojError>)
        ensures
            match r {
                Ok(x) => CallingConvention::parse_spec(s@) == Some(x),
                Err(e) => CallingConvention::parse_spec(s@) is None && err_view(e) == CallingConvention::parse_err(s@),
            },
    {
        match parse_flag_number(s, false) {
            Ok(v) => match CallingConvention::from_value(v) {
                Some(x) => Ok(x),
                None => Err(VcprojError::InvalidFlag("CallingConvention".to_owned(), v)),
            },
            Err(e) => Err(e),
        }
    }
}

/// Values of the `GeneratePreprocessedFile` attribute and their command-line text.
#[derive(Clone, Copy, Debug, PartialEq, Eq, Structural, Hash)]
pub enum GeneratePreprocessedFile {
    _0,
    _1,
    _2,
}

impl GeneratePreprocessedFile {
    /// The value for an attribute number.
    pub open spec fn of_value(v: i8) -> Option<GeneratePreprocessedFile> {
        if v == 0 {
            Some(GeneratePreprocessedFile::_0)
        } else if v == 1 {
            Some(GeneratePreprocessedFile::_1)
        } else if v == 2 {
            Some(GeneratePreprocessedFile::_2)
        } else {
            None
        }
    }

    /// The command-line text of the value.
    pub open spec fn text(self) -> Seq<char> {
        match self {
            GeneratePreprocessedFile::_0 => ""@,
            GeneratePreprocessedFile::_1 => "/P"@,
            GeneratePreprocessedFile::_2 => "/EP /P"@,
        }
    }

    pub fn as_str(&self) -> (r: &'static str)
        ensures
            r@ == self.text(),
    {
        match self {
            GeneratePreprocessedFile::_0 => "",
            GeneratePreprocessedFile::_1 => "/P",
            GeneratePreprocessedFile::_2 => "/EP /P",
        }
    }

    pub fn from_value(v: i8) -> (r: Option<GeneratePreprocessedFile>)
        ensures
            r == GeneratePreprocessedFile::of_value(v),
    {
        if v == 0 {
            Some(GeneratePreprocessedFile::_0)
        } else if v == 1 {
            Some(GeneratePreprocessedFile::_1)
        } else if v == 2 {
            Some(GeneratePreprocessedFile::_2)
        } else {
            None
        }
    }

    /// The value of an attribute text.
    pub open spec fn parse_spec(s: Seq<char>) -> Option<GeneratePreprocessedFile> {
        match flag_number(s, false) {
            Some(v) => GeneratePreprocessedFile::of_value(v),
            None => None,
        }
    }

    /// The refusal of a text that is not a value of this kind.
    pub open spec fn parse_err(s: Seq<char>) -> XmlErr {
        flag_err("GeneratePreprocessedFile"@, s, false)
    }

    pub fn parse(s: &str) -> (r: Result<GeneratePreprocessedFile, VcprojError>)
        ensures
            match r {
                Ok(x) => GeneratePreprocessedFile::parse_spec(s@) == Some(x),
                Err(e) => GeneratePreprocessedFile::parse_spec(s@) is None && err_view(e) == GeneratePreprocessedFile::parse_err(s@),
            },
    {
        match parse_flag_number(s, false) {
            Ok(v) => match GeneratePreprocessedFile::from_value(v) {
                Some(x) => Ok(x),
                None => Err(VcprojError::InvalidFlag("GeneratePreprocessedFile".to_owned(), v)),
            },
            Err(e) => Err(e),
        }
    }
}

/// Values of the `StructMemberAlignment` attribute and their command-line text.
#[derive(Clone, Copy, Debug, PartialEq, Eq, Structural, Hash)]
pub enum StructMemberAlignment {
    _0,
    _1,
    _2,
    _3,
    _4,
    _5,
}

impl StructMemberAlignment {
    /// The value for an attribute number.
    pub open spec fn of_value(v: i8) -> Option<StructMemberAlignment> {
        if v == 0 {
            Some(StructMemberAlignment::_0)
        } else if v == 1 {
            Some(StructMemberAlignment::_1)
        } else if v == 2 {
            Some(StructMemberAlignment::_2)
        } else if v == 3 {
            Some(StructMemberAlignment::_3)
        } else if v == 4 {
            Some(StructMemberAlignment::_4)
        } else if v == 5 {
            Some(StructMemberAlignment::_5)
        } else {
            None
        }
    }

    /// The command-line text of the value.
    pub open spec fn text(self) -> Seq<char> {
        match self {
            StructMemberAlignment::_0 => ""@,
            StructMemberAlignment::_1 => "/Zp1"@,
            StructMemberAlignment::_2 => "/Zp2"@,
            StructMemberAlignment::_3 => "/Zp4"@,
            StructMemberAlignment::_4 => "/Zp8"@,
            StructMemberAlignment::_5 => "/Zp16"@,
        }
    }

    pub fn as_str(&self) -> (r: &'static str)
        ensures
            r@ == self.text(),
    {
        match self {
            StructMemberAlignment::_0 => "",
            StructMemberAlignment::_1 => "/Zp1",
            StructMemberAlignment::_2 => "/Zp2",
            StructMemberAlignment::_3 => "/Zp4",
            StructMemberAlignment::_4 => "/Zp8",
            StructMemberAlignment::_5 => "/Zp16",
        }
    }

    pub fn from_value(v: i8) -> (r: Option<StructMemberAlignment>)
        ensures
            r == StructMemberAlignment::of_value(v),
    {
        if v == 0 {
            Some(StructMemberAlignment::_0)
        } else if v == 1 {
            Some(StructMemberAlignment::_1)
        } else if v == 2 {
            Some(StructMemberAlignment::_2)
        } else if v == 3 {
            Some(StructMemberAlignment::_3)
        } else if v == 4 {
            Some(StructMemberAlignment::_4)
        } else if v == 5 {
            Some(StructMemberAlignment::_5)
        } else {
            None
        }
    }

    /// The value of an attribute text.
    pub open spec fn parse_spec(s: Seq<char>) -> Option<StructMemberAlignment> {
        match flag_number(s, false) {
            Some(v) => StructMemberAlignment::of_value(v),
            None => None,
        }
    }

    /// The refusal of a text that is not a value of this kind.
    pub open spec fn parse_err(s: Seq<char>) -> XmlErr {
        flag_err("StructMemberAlignment"@, s, false)
    }

    pub fn parse(s: &str) -> (r: Result<StructMemberAlignment, VcprojError>)
        ensures
            match r {
                Ok(x) => StructMemberAlignment::parse_spec(s@) == Some(x),
                Err(e) => StructMemberAlignment::parse_spec(s@) is None && err_view(e) == StructMemberAlignment::parse_err(s@),
            },
    {
        match parse_flag_number(s, false) {
            Ok(v) => match StructMemberAlignment::from_value(v) {
                Some(x) => Ok(x),
                None => Err(VcprojError::InvalidFlag("StructMemberAlignment".to_owned(), v)),
            },
            Err(e) => Err(e),
        }
    }
}

/// Values of the `Detect64BitPortabilityProblems` attribute and their command-line text.
#[derive(Clone, Copy, Debug, PartialEq, Eq, Structural, Hash)]
pub enum Detect64BitPortabilityProblems {
    _0,
    _1,
}

impl Detect64BitPortabilityProblems {
    /// The value for an attribute number.
    pub open spec fn of_value(v: i8) -> Option<Detect64BitPortabilityProblems> {
        if v == 0 {
            Some(Detect64BitPortabilityProblems::_0)
        } else if v == 1 {
            Some(Detect64BitPortabilityProblems::_1)
        } else {
            None
        }
    }

    /// The command-line text of the value.
    pub open spec fn text(self) -> Seq<char> {
        match self {
            Detect64BitPortabilityProblems::_0 => ""@,
            Detect64BitPortabilityProblems::_1 => "/Wp64"@,
        }
    }

    pub fn as_str(&self) -> (r: &'static str)
        ensures
            r@ == self.text(),
    {
        match self {
            Detect64BitPortabilityProblems::_0 => "",
            Detect64BitPortabilityProblems::_1 => "/Wp64",
        }
    }

    pub fn from_value(v: i8) -> (r: Option<Detect64BitPortabilityProblems>)
        ensures
            r == Detect64BitPortabilityProblems::of_value(v),
    {
        if v == 0 {
            Some(Detect64BitPortabilityProblems::_0)
        } else if v == 1 {
            Some(Detect64BitPortabilityProblems::_1)
        } else {
            None
        }
    }

    /// The value of an attribute text.
    pub open spec fn parse_spec(s: Seq<char>) -> Option<Detect64BitPortabilityProblems> {
        match flag_number(s, true) {
            Some(v) => Detect64BitPortabilityProblems::of_value(v),
            None => None,
        }
    }

    /// The refusal of a text that is not a value of this kind.
    pub open spec fn parse_err(s: Seq<char>) -> XmlErr {
        flag_err("Detect64BitPortabilityProblems"@, s, true)
    }

    pub fn parse(s: &str) -> (r: Result<Detect64BitPortabilityProblems, VcprojError>)
        ensures
            match r {
                Ok(x) => Detect64BitPortabilityProblems::parse_spec(s@) == Some(x),
                Err(e) => Detect64BitPortabilityProblems::parse_spec(s@) is None && err_view(e) == Detect64BitPortabilityProblems::parse_err(s@),
            },
    {
        match parse_flag_number(s, true) {
            Ok(v) => match Detect64BitPortabilityProblems::from_value(v) {
                Some(x) => Ok(x),
                None => Err(VcprojError::InvalidFlag("Detect64BitPortabilityProblems".to_owned(), v)),
            },
            Err(e) => Err(e),
        }
    }
}

/// Values of the `GenerateProgramDatabase` attribute and their command-line text.
#[derive(Clone, Copy, Debug, PartialEq, Eq, Structural, Hash)]
pub enum GenerateProgramDatabase {
    _0,
    _1,
}

impl GenerateProgramDatabase {
    /// The value for an attribute number.
    pub open spec fn of_value(v: i8) -> Option<GenerateProgramDatabase> {
        if v == 0 {
            Some(GenerateProgramDatabase::_0)
        } else if v == 1 {
            Some(GenerateProgramDatabase::_1)
        } else {
            None
        }
    }

    /// The command-line text of the value.
    pub open spec fn text(self) -> Seq<char> {
        match self {
            GenerateProgramDatabase::_0 => ""@,
            GenerateProgramDatabase::_1 => "/FD"@,
        }
    }

    pub fn as_str(&self) -> (r: &'static str)
        ensures
            r@ == self.text(),
    {
        match self {
            GenerateProgramDatabase::_0 => "",
            GenerateProgramDatabase::_1 => "/FD",
        }
    }

    pub fn from_value(v: i8) -> (r: Option<GenerateProgramDatabase>)
        ensures
            r == GenerateProgramDatabase::of_value(v),
    {
        if v == 0 {
            Some(GenerateProgramDatabase::_0)
        } else if v == 1 {
            Some(GenerateProgramDatabase::_1)
        } else {
            None
        }
    }

    /// The value of an attribute text.
    pub open spec fn parse_spec(s: Seq<char>) -> Option<GenerateProgramDatabase> {
        match flag_number(s, true) {
            Some(v) => GenerateProgramDatabase::of_value(v),
            None => None,
        }
    }

    /// The refusal of a text that is not a value of this kind.
    pub open spec fn parse_err(s: Seq<char>) -> XmlErr {
        flag_err("GenerateProgramDatabase"@, s, true)
    }

    pub fn parse(s: &str) -> (r: Result<GenerateProgramDatabase, VcprojError>)
        ensures
            match r {
                Ok(x) => GenerateProgramDatabase::parse_spec(s@) == Some(x),
                Err(e) => GenerateProgramDatabase::parse_spec(s@) is None && err_view(e) == GenerateProgramDatabase::parse_err(s@),
            },
    {
        match parse_flag_number(s, true) {
            Ok(v) => match GenerateProgramDatabase::from_value(v) {
                Some(x) => Ok(x),
                None => Err(VcprojError::InvalidFlag("GenerateProgramDatabase".to_owned(), v)),
            },
            Err(e) => Err(e),
        }
    }
}

/// Values of the `CompileOnly` attribute and their command-line text.
#[derive(Clone, Copy, Debug, PartialEq, Eq, Structural, Hash)]
pub enum CompileOnly {
    _0,
    _1,
}

impl CompileOnly {
    /// The value for an attribute number.
    pub open spec fn of_value(v: i8) -> Option<CompileOnly> {
        if v == 0 {
            Some(CompileOnly::_0)
        } else if v == 1 {
            Some(CompileOnly::_1)
        } else {
            None
        }
    }

    /// The command-line text of the value.
    pub open spec fn text(self) -> Seq<char> {
        match self {
            CompileOnly::_0 => ""@,
            CompileOnly::_1 => "/c"@,
        }
    }

    pub fn as_str(&self) -> (r: &'static str)
        ensures
            r@ == self.text(),
    {
        match self {
            CompileOnly::_0 => "",
            CompileOnly::_1 => "/c",
        }
    }

    pub fn from_value(v: i8) -> (r: Option<CompileOnly>)
        ensures
            r == CompileOnly::of_value(v),
    {
        if v == 0 {
            Some(CompileOnly::_0)
        } else if v == 1 {
            Some(CompileOnly::_1)
        } else {
            None
        }
    }

    /// The value of an attribute text.
    pub open spec fn parse_spec(s: Seq<char>) -> Option<CompileOnly> {
        match flag_number(s, true) {
            Some(v) => CompileOnly::of_value(v),
            None => None,
        }
    }

    /// The refusal of a text that is not a value of this kind.
    pub open spec fn parse_err(s: Seq<char>) -> XmlErr {
        flag_err("CompileOnly"@, s, true)
    }

    pub fn parse(s: &str) -> (r: Result<CompileOnly, VcprojError>)
        ensures
            match r {
                Ok(x) => CompileOnly::parse_spec(s@) == Some(x),
                Err(e) => CompileOnly::parse_spec(s@) is None && err_view(e) == CompileOnly::parse_err(s@),
            },
    {
        match parse_flag_number(s, true) {
            Ok(v) => match CompileOnly::from_value(v) {
                Some(x) => Ok(x),
                None => Err(VcprojError::InvalidFlag("CompileOnly".to_owned(), v)),
            },
            Err(e) => Err(e),
        }
    }
}

/// The settings of the compiler for a configuration or a file; every
/// attribute is optional.
#[derive(Debug)]
pub struct CompilerTool {
    pub additional_options: Option<String>,
    pub optimization: Option<Optimization>,
    pub inline_function_expansion: Option<InlineFunctionExpansion>,
    pub enable_intrinsic_functions: Option<EnableIntrinsicFunctions>,
    pub omit_frame_pointers: Option<OmitFramePointers>,
    pub enable_fiber_safe_optimizations: Option<EnableFiberSafeOptimizations>,
    pub favor_size_or_speed: Option<FavorSizeOrSpeed>,
    pub whole_program_optimization: Option<WholeProgramOptimization>,
    pub string_pooling: Option<StringPooling>,
    pub exception_handling: Option<ExceptionHandling>,
    pub runtime_library: Option<RuntimeLibrary>,
    pub buffer_security_check: Option<BufferSecurityCheck>,
    pub enable_enhanced_instruction_set: Option<EnableEnhancedInstructionSet>,
    pub floating_point_model: Option<FloatingPointModel>,
    pub warning_level: Option<WarningLevel>,
    pub debug_information_format: Option<DebugInformationFormat>,
    pub use_precompiled_header: Option<UsePrecompiledHeader>,
    pub compile_as: Option<CompileAs>,
    pub runtime_type_info: Option<RuntimeTypeInfo>,
    pub minimal_rebuild: Option<MinimalRebuild>,
    pub basic_runtime_checks: Option<BasicRuntimeChecks>,
    pub enable_function_level_linking: Option<EnableFunctionLevelLinking>,
    pub smaller_type_check: Option<SmallerTypeCheck>,
    pub browse_information: Option<BrowseInformation>,
    pub calling_convention: Option<CallingConvention>,
    pub floating_point_exceptions: Option<FloatingPointExceptions>,
    pub force_conformance_in_for_loop_scope: Option<ForceConformanceInForLoopScope>,
    pub generate_preprocessed_file: Option<GeneratePreprocessedFile>,
    pub show_includes: Option<ShowIncludes>,
    pub struct_member_alignment: Option<StructMemberAlignment>,
    pub suppress_startup_banner: Option<SuppressStartupBanner>,
    pub detect_64_bit_portability_problems: Option<Detect64BitPortabilityProblems>,
    pub precompiled_header_through: Option<String>,
    pub object_file: Option<String>,
    pub precompiled_header_file: Option<String>,
    pub program_data_base_file_name: Option<String>,
    pub disable_specific_warnings: Option<Vec<String>>,
    pub additional_include_directories: Option<Vec<String>>,
    pub preprocessor_definitions: Option<Vec<String>>,
}

/// Mathematical view of [`CompilerTool`].
pub struct CompilerToolView {
    pub additional_options: Option<Seq<char>>,
    pub optimization: Option<Optimization>,
    pub inline_function_expansion: Option<InlineFunctionExpansion>,
    pub enable_intrinsic_functions: Option<EnableIntrinsicFunctions>,
    pub omit_frame_pointers: Option<OmitFramePointers>,
    pub enable_fiber_safe_optimizations: Option<EnableFiberSafeOptimizations>,
    pub favor_size_or_speed: Option<FavorSizeOrSpeed>,
    pub whole_program_optimization: Option<WholeProgramOptimization>,
    pub string_pooling: Option<StringPooling>,
    pub exception_handling: Option<ExceptionHandling>,
    pub runtime_library: Option<RuntimeLibrary>,
    pub buffer_security_check: Option<BufferSecurityCheck>,
    pub enable_enhanced_instruction_set: Option<EnableEnhancedInstructionSet>,
    pub floating_point_model: Option<FloatingPointModel>,
    pub warning_level: Option<WarningLevel>,
    pub debug_information_format: Option<DebugInformationFormat>,
    pub use_precompiled_header: Option<UsePrecompiledHeader>,
    pub compile_as: Option<CompileAs>,
    pub runtime_type_info: Option<RuntimeTypeInfo>,
    pub minimal_rebuild: Option<MinimalRebuild>,
    pub basic_runtime_checks: Option<BasicRuntimeChecks>,
    pub enable_function_level_linking: Option<EnableFunctionLevelLinking>,
    pub smaller_type_check: Option<SmallerTypeCheck>,
    pub browse_information: Option<BrowseInformation>,
    pub calling_convention: Option<CallingConvention>,
    pub floating_point_exceptions: Option<FloatingPointExceptions>,
    pub force_conformance_in_for_loop_scope: Option<ForceConformanceInForLoopScope>,
    pub generate_preprocessed_file: Option<GeneratePreprocessedFile>,
    pub show_includes: Option<ShowIncludes>,
    pub struct_member_alignment: Option<StructMemberAlignment>,
    pub suppress_startup_banner: Option<SuppressStartupBanner>,
    pub detect_64_bit_portability_problems: Option<Detect64BitPortabilityProblems>,
    pub precompiled_header_through: Option<Seq<char>>,
    pub object_file: Option<Seq<char>>,
    pub precompiled_header_file: Option<Seq<char>>,
    pub program_data_base_file_name: Option<Seq<char>>,
    pub disable_specific_warnings: Option<Seq<Seq<char>>>,
    pub additional_include_directories: Option<Seq<Seq<char>>>,
    pub preprocessor_definitions: Option<Seq<Seq<char>>>,
}

impl View for CompilerTool {
    type V = CompilerToolView;

    open spec fn view(&self) -> CompilerToolView {
        CompilerToolView {
            additional_options: opt_view(self.additional_options),
            optimization: self.optimization,
            inline_function_expansion: self.inline_function_expansion,
            enable_intrinsic_functions: self.enable_intrinsic_functions,
            omit_frame_pointers: self.omit_frame_pointers,
            enable_fiber_safe_optimizations: self.enable_fiber_safe_optimizations,
            favor_size_or_speed: self.favor_size_or_speed,
            whole_program_optimization: self.whole_program_optimization,
            string_pooling: self.string_pooling,
            exception_handling: self.exception_handling,
            runtime_library: self.runtime_library,
            buffer_security_check: self.buffer_security_check,
            enable_enhanced_instruction_set: self.enable_enhanced_instruction_set,
            floating_point_model: self.floating_point_model,
            warning_level: self.warning_level,
            debug_information_format: self.debug_information_format,
            use_precompiled_header: self.use_precompiled_header,
            compile_as: self.compile_as,
            runtime_type_info: self.runtime_type_info,
            minimal_rebuild: self.minimal_rebuild,
            basic_runtime_checks: self.basic_runtime_checks,
            enable_function_level_linking: self.enable_function_level_linking,
            smaller_type_check: self.smaller_type_check,
            browse_information: self.browse_information,
            calling_convention: self.calling_convention,
            floating_point_exceptions: self.floating_point_exceptions,
            force_conformance_in_for_loop_scope: self.force_conformance_in_for_loop_scope,
            generate_preprocessed_file: self.generate_preprocessed_file,
            show_includes: self.show_includes,
            struct_member_alignment: self.struct_member_alignment,
            suppress_startup_banner: self.suppress_startup_banner,
            detect_64_bit_portability_problems: self.detect_64_bit_portability_problems,
            precompiled_header_through: opt_view(self.precompiled_header_through),
            object_file: opt_view(self.object_file),
            precompiled_header_file: opt_view(self.precompiled_header_file),
            program_data_base_file_name: opt_view(self.program_data_base_file_name),
            disable_specific_warnings: opt_list_view(self.disable_specific_warnings),
            additional_include_directories: opt_list_view(self.additional_include_directories),
            preprocessor_definitions: opt_list_view(self.preprocessor_definitions),
        }
    }
}

/// Settings of `rhs` over those of `lhs`: a value of `rhs` wins, lists
/// are concatenated (`lhs` first, and present even when both are absent),
/// the additional options of both are kept (`rhs` first), and a merged
/// `GeneratePreprocessedFile` of `0` counts as unset.
pub open spec fn merge_spec(lhs: CompilerToolView, rhs: CompilerToolView) -> CompilerToolView {
    CompilerToolView {
        additional_options: match (rhs.additional_options, lhs.additional_options) {
            (Some(r), Some(l)) => Some(r + seq![' '] + l),
            (r, l) => or_else(r, l),
        },
        optimization: or_else(rhs.optimization, lhs.optimization),
        inline_function_expansion: or_else(rhs.inline_function_expansion, lhs.inline_function_expansion),
        enable_intrinsic_functions: or_else(rhs.enable_intrinsic_functions, lhs.enable_intrinsic_functions),
        omit_frame_pointers: or_else(rhs.omit_frame_pointers, lhs.omit_frame_pointers),
        enable_fiber_safe_optimizations: or_else(rhs.enable_fiber_safe_optimizations, lhs.enable_fiber_safe_optimizations),
        favor_size_or_speed: or_else(rhs.favor_size_or_speed, lhs.favor_size_or_speed),
        whole_program_optimization: or_else(rhs.whole_program_optimization, lhs.whole_program_optimization),
        string_pooling: or_else(rhs.string_pooling, lhs.string_pooling),
        exception_handling: or_else(rhs.exception_handling, lhs.exception_handling),
        runtime_library: or_else(rhs.runtime_library, lhs.runtime_library),
        buffer_security_check: or_else(rhs.buffer_security_check, lhs.buffer_security_check),
        enable_enhanced_instruction_set: or_else(rhs.enable_enhanced_instruction_set, lhs.enable_enhanced_instruction_set),
        floating_point_model: or_else(rhs.floating_point_model, lhs.floating_point_model),
        warning_level: or_else(rhs.warning_level, lhs.warning_level),
        debug_information_format: or_else(rhs.debug_information_format, lhs.debug_information_format),
        use_precompiled_header: or_else(rhs.use_precompiled_header, lhs.use_precompiled_header),
        compile_as: or_else(rhs.compile_as, lhs.compile_as),
        runtime_type_info: or_else(rhs.runtime_type_info, lhs.runtime_type_info),
        minimal_rebuild: or_else(rhs.minimal_rebuild, lhs.minimal_rebuild),
        basic_runtime_checks: or_else(rhs.basic_runtime_checks, lhs.basic_runtime_checks),
        enable_function_level_linking: or_else(rhs.enable_function_level_linking, lhs.enable_function_level_linking),
        smaller_type_check: or_else(rhs.smaller_type_check, lhs.smaller_type_check),
        browse_information: or_else(rhs.browse_information, lhs.browse_information),
        calling_convention: or_else(rhs.calling_convention, lhs.calling_convention),
        floating_point_exceptions: or_else(rhs.floating_point_exceptions, lhs.floating_point_exceptions),
        force_conformance_in_for_loop_scope: or_else(rhs.force_conformance_in_for_loop_scope, lhs.force_conformance_in_for_loop_scope),
        generate_preprocessed_file: match or_else(rhs.generate_preprocessed_file, lhs.generate_preprocessed_file) {
            Some(GeneratePreprocessedFile::_0) => None,
            v => v,
        },
        show_includes: or_else(rhs.show_includes, lhs.show_includes),
        struct_member_alignment: or_else(rhs.struct_member_alignment, lhs.struct_member_alignment),
        suppress_startup_banner: or_else(rhs.suppress_startup_banner, lhs.suppress_startup_banner),
        detect_64_bit_portability_problems: or_else(rhs.detect_64_bit_portability_problems, lhs.detect_64_bit_portability_problems),
        precompiled_header_through: or_else(rhs.precompiled_header_through, lhs.precompiled_header_through),
        object_file: or_else(rhs.object_file, lhs.object_file),
        precompiled_header_file: or_else(rhs.precompiled_header_file, lhs.precompiled_header_file),
        program_data_base_file_name: or_else(rhs.program_data_base_file_name, lhs.program_data_base_file_name),
        disable_specific_warnings: Some(list_or_empty(lhs.disable_specific_warnings) + list_or_empty(rhs.disable_specific_warnings)),
        additional_include_directories: Some(list_or_empty(lhs.additional_include_directories) + list_or_empty(rhs.additional_include_directories)),
        preprocessor_definitions: Some(list_or_empty(lhs.preprocessor_definitions) + list_or_empty(rhs.preprocessor_definitions)),
    }
}

impl CompilerTool {
    pub fn merge(self, rhs: CompilerTool) -> (r: CompilerTool)
        ensures
            r@ == merge_spec(self@, rhs@),
    {
        let additional_options = match (rhs.additional_options, self.additional_options) {
            (Some(r), Some(l)) => {
                let ghost r0 = r@;
                let mut r = r;
                push_char(&mut r, ' ');
                push_str(&mut r, l.as_str());
                assert(r@ =~= r0 + seq![' '] + l@);
                Some(r)
            },
            (r, l) => if r.is_some() {
                r
            } else {
                l
            },
        };
        let generate_preprocessed_file = match (if rhs.generate_preprocessed_file.is_some() {
            rhs.generate_preprocessed_file
        } else {
            self.generate_preprocessed_file
        }) {
            Some(GeneratePreprocessedFile::_0) => None,
            v => v,
        };
        let disable_specific_warnings = Some(concat_lists(self.disable_specific_warnings, rhs.disable_specific_warnings));
        let additional_include_directories = Some(concat_lists(self.additional_include_directories, rhs.additional_include_directories));
        let preprocessor_definitions = Some(concat_lists(self.preprocessor_definitions, rhs.preprocessor_definitions));
        let r = CompilerTool {
            additional_options,
            optimization: if rhs.optimization.is_some() {
                rhs.optimization
            } else {
                self.optimization
            },
            inline_function_expansion: if rhs.inline_function_expansion.is_some() {
                rhs.inline_function_expansion
            } else {
                self.inline_function_expansion
            },
            enable_intrinsic_functions: if rhs.enable_intrinsic_functions.is_some() {
                rhs.enable_intrinsic_functions
            } else {
                self.enable_intrinsic_functions
            },
            omit_frame_pointers: if rhs.omit_frame_pointers.is_some() {
                rhs.omit_frame_pointers
            } else {
                self.omit_frame_pointers
            },
            enable_fiber_safe_optimizations: if rhs.enable_fiber_safe_optimizations.is_some() {
                rhs.enable_fiber_safe_optimizations
            } else {
                self.enable_fiber_safe_optimizations
            },
            favor_size_or_speed: if rhs.favor_size_or_speed.is_some() {
                rhs.favor_size_or_speed
            } else {
                self.favor_size_or_speed
            },
            whole_program_optimization: if rhs.whole_program_optimization.is_some() {
                rhs.whole_program_optimization
            } else {
                self.whole_program_optimization
            },
            string_pooling: if rhs.string_pooling.is_some() {
                rhs.string_pooling
            } else {
                self.string_pooling
            },
            exception_handling: if rhs.exception_handling.is_some() {
                rhs.exception_handling
            } else {
                self.exception_handling
            },
            runtime_library: if rhs.runtime_library.is_some() {
                rhs.runtime_library
            } else {
                self.runtime_library
            },
            buffer_security_check: if rhs.buffer_security_check.is_some() {
                rhs.buffer_security_check
            } else {
                self.buffer_security_check
            },
            enable_enhanced_instruction_set: if rhs.enable_enhanced_instruction_set.is_some() {
                rhs.enable_enhanced_instruction_set
            } else {
                self.enable_enhanced_instruction_set
            },
            floating_point_model: if rhs.floating_point_model.is_some() {
                rhs.floating_point_model
            } else {
                self.floating_point_model
            },
            warning_level: if rhs.warning_level.is_some() {
                rhs.warning_level
            } else {
                self.warning_level
            },
            debug_information_format: if rhs.debug_information_format.is_some() {
                rhs.debug_information_format
            } else {
                self.debug_information_format
            },
            use_precompiled_header: if rhs.use_precompiled_header.is_some() {
                rhs.use_precompiled_header
            } else {
                self.use_precompiled_header
            },
            compile_as: if rhs.compile_as.is_some() {
                rhs.compile_as
            } else {
                self.compile_as
            },
            runtime_type_info: if rhs.runtime_type_info.is_some() {
                rhs.runtime_type_info
            } else {
                self.runtime_type_info
            },
            minimal_rebuild: if rhs.minimal_rebuild.is_some() {
                rhs.minimal_rebuild
            } else {
                self.minimal_rebuild
            },
            basic_runtime_checks: if rhs.basic_runtime_checks.is_some() {
                rhs.basic_runtime_checks
            } else {
                self.basic_runtime_checks
            },
            enable_function_level_linking: if rhs.enable_function_level_linking.is_some() {
                rhs.enable_function_level_linking
            } else {
                self.enable_function_level_linking
            },
            smaller_type_check: if rhs.smaller_type_check.is_some() {
                rhs.smaller_type_check
            } else {
                self.smaller_type_check
            },
            browse_information: if rhs.browse_information.is_some() {
                rhs.browse_information
            } else {
                self.browse_information
            },
            calling_convention: if rhs.calling_convention.is_some() {
                rhs.calling_convention
            } else {
                self.calling_convention
            },
            floating_point_exceptions: if rhs.floating_point_exceptions.is_some() {
                rhs.floating_point_exceptions
            } else {
                self.floating_point_exceptions
            },
            force_conformance_in_for_loop_scope: if rhs.force_conformance_in_for_loop_scope.is_some() {
                rhs.force_conformance_in_for_loop_scope
            } else {
                self.force_conformance_in_for_loop_scope
            },
            generate_preprocessed_file,
            show_includes: if rhs.show_includes.is_some() {
                rhs.show_includes
            } else {
                self.show_includes
            },
            struct_member_alignment: if rhs.struct_member_alignment.is_some() {
                rhs.struct_member_alignment
            } else {
                self.struct_member_alignment
            },
            suppress_startup_banner: if rhs.suppress_startup_banner.is_some() {
                rhs.suppress_startup_banner
            } else {
                self.suppress_startup_banner
            },
            detect_64_bit_portability_problems: if rhs.detect_64_bit_portability_problems.is_some() {
                rhs.detect_64_bit_portability_problems
            } else {
                self.detect_64_bit_portability_problems
            },
            precompiled_header_through: if rhs.precompiled_header_through.is_some() {
                rhs.precompiled_header_through
            } else {
                self.precompiled_header_through
            },
            object_file: if rhs.object_file.is_some() {
                rhs.object_file
            } else {
                self.object_file
            },
            precompiled_header_file: if rhs.precompiled_header_file.is_some() {
                rhs.precompiled_header_file
            } else {
                self.precompiled_header_file
            },
            program_data_base_file_name: if rhs.program_data_base_file_name.is_some() {
                rhs.program_data_base_file_name
            } else {
                self.program_data_base_file_name
            },
            disable_specific_warnings,
            additional_include_directories,
            preprocessor_definitions,
        };
        assert(r@.additional_options == merge_spec(self@, rhs@).additional_options);
        assert(r@.disable_specific_warnings == merge_spec(self@, rhs@).disable_specific_warnings);
        assert(r@.generate_preprocessed_file == merge_spec(self@, rhs@).generate_preprocessed_file);
        r
    }

    /// A tool with every setting absent.
    pub fn empty() -> (r: CompilerTool)
        ensures
            r@ == empty_tool_view(),
    {
        CompilerTool {
            additional_options: None,
            optimization: None,
            inline_function_expansion: None,
            enable_intrinsic_functions: None,
            omit_frame_pointers: None,
            enable_fiber_safe_optimizations: None,
            favor_size_or_speed: None,
            whole_program_optimization: None,
            string_pooling: None,
            exception_handling: None,
            runtime_library: None,
            buffer_security_check: None,
            enable_enhanced_instruction_set: None,
            floating_point_model: None,
            warning_level: None,
            debug_information_format: None,
            use_precompiled_header: None,
            compile_as: None,
            runtime_type_info: None,
            minimal_rebuild: None,
            basic_runtime_checks: None,
            enable_function_level_linking: None,
            smaller_type_check: None,
            browse_information: None,
            calling_convention: None,
            floating_point_exceptions: None,
            force_conformance_in_for_loop_scope: None,
            generate_preprocessed_file: None,
            show_includes: None,
            struct_member_alignment: None,
            suppress_startup_banner: None,
            detect_64_bit_portability_problems: None,
            precompiled_header_through: None,
            object_file: None,
            precompiled_header_file: None,
            program_data_base_file_name: None,
            disable_specific_warnings: None,
            additional_include_directories: None,
            preprocessor_definitions: None,
        }
    }

    pub fn clone_tool(&self) -> (r: CompilerTool)
        ensures
            r@ == self@,
    {
        CompilerTool {
            additional_options: clone_opt_string(&self.additional_options),
            optimization: self.optimization,
            inline_function_expansion: self.inline_function_expansion,
            enable_intrinsic_functions: self.enable_intrinsic_functions,
            omit_frame_pointers: self.omit_frame_pointers,
            enable_fiber_safe_optimizations: self.enable_fiber_safe_optimizations,
            favor_size_or_speed: self.favor_size_or_speed,
            whole_program_optimization: self.whole_program_optimization,
            string_pooling: self.string_pooling,
            exception_handling: self.exception_handling,
            runtime_library: self.runtime_library,
            buffer_security_check: self.buffer_security_check,
            enable_enhanced_instruction_set: self.enable_enhanced_instruction_set,
            floating_point_model: self.floating_point_model,
            warning_level: self.warning_level,
            debug_information_format: self.debug_information_format,
            use_precompiled_header: self.use_precompiled_header,
            compile_as: self.compile_as,
            runtime_type_info: self.runtime_type_info,
            minimal_rebuild: self.minimal_rebuild,
            basic_runtime_checks: self.basic_runtime_checks,
            enable_function_level_linking: self.enable_function_level_linking,
            smaller_type_check: self.smaller_type_check,
            browse_information: self.browse_information,
            calling_convention: self.calling_convention,
            floating_point_exceptions: self.floating_point_exceptions,
            force_conformance_in_for_loop_scope: self.force_conformance_in_for_loop_scope,
            generate_preprocessed_file: self.generate_preprocessed_file,
            show_includes: self.show_includes,
            struct_member_alignment: self.struct_member_alignment,
            suppress_startup_banner: self.suppress_startup_banner,
            detect_64_bit_portability_problems: self.detect_64_bit_portability_problems,
            precompiled_header_through: clone_opt_string(&self.precompiled_header_through),
            object_file: clone_opt_string(&self.object_file),
            precompiled_header_file: clone_opt_string(&self.precompiled_header_file),
            program_data_base_file_name: clone_opt_string(&self.program_data_base_file_name),
            disable_specific_warnings: clone_opt_list(&self.disable_specific_warnings),
            additional_include_directories: clone_opt_list(&self.additional_include_directories),
            preprocessor_definitions: clone_opt_list(&self.preprocessor_definitions),
        }
    }

    /// Equality of all settings.
    pub fn same_settings(&self, other: &CompilerTool) -> (r: bool)
        ensures
            r == (self@ == other@),
    {
        let r = opt_string_eq(&self.additional_options, &other.additional_options)
            && self.optimization == other.optimization
            && self.inline_function_expansion == other.inline_function_expansion
            && self.enable_intrinsic_functions == other.enable_intrinsic_functions
            && self.omit_frame_pointers == other.omit_frame_pointers
            && self.enable_fiber_safe_optimizations == other.enable_fiber_safe_optimizations
            && self.favor_size_or_speed == other.favor_size_or_speed
            && self.whole_program_optimization == other.whole_program_optimization
            && self.string_pooling == other.string_pooling
            && self.exception_handling == other.exception_handling
            && self.runtime_library == other.runtime_library
            && self.buffer_security_check == other.buffer_security_check
            && self.enable_enhanced_instruction_set == other.enable_enhanced_instruction_set
            && self.floating_point_model == other.floating_point_model
            && self.warning_level == other.warning_level
            && self.debug_information_format == other.debug_information_format
            && self.use_precompiled_header == other.use_precompiled_header
            && self.compile_as == other.compile_as
            && self.runtime_type_info == other.runtime_type_info
            && self.minimal_rebuild == other.minimal_rebuild
            && self.basic_runtime_checks == other.basic_runtime_checks
            && self.enable_function_level_linking == other.enable_function_level_linking
            && self.smaller_type_check == other.smaller_type_check
            && self.browse_information == other.browse_information
            && self.calling_convention == other.calling_convention
            && self.floating_point_exceptions == other.floating_point_exceptions
            && self.force_conformance_in_for_loop_scope == other.force_conformance_in_for_loop_scope
            && self.generate_preprocessed_file == other.generate_preprocessed_file
            && self.show_includes == other.show_includes
            && self.struct_member_alignment == other.struct_member_alignment
            && self.suppress_startup_banner == other.suppress_startup_banner
            && self.detect_64_bit_portability_problems == other.detect_64_bit_portability_problems
            && opt_string_eq(&self.precompiled_header_through, &other.precompiled_header_through)
            && opt_string_eq(&self.object_file, &other.object_file)
            && opt_string_eq(&self.precompiled_header_file, &other.precompiled_header_file)
            && opt_string_eq(&self.program_data_base_file_name, &other.program_data_base_file_name)
            && opt_list_eq(&self.disable_specific_warnings, &other.disable_specific_warnings)
            && opt_list_eq(&self.additional_include_directories, &other.additional_include_directories)
            && opt_list_eq(&self.preprocessor_definitions, &other.preprocessor_definitions);
        r
    }
}

pub open spec fn empty_tool_view() -> CompilerToolView {
    CompilerToolView {
        additional_options: None,
        optimization: None,
        inline_function_expansion: None,
        enable_intrinsic_functions: None,
        omit_frame_pointers: None,
        enable_fiber_safe_optimizations: None,
        favor_size_or_speed: None,
        whole_program_optimization: None,
        string_pooling: None,
        exception_handling: None,
        runtime_library: None,
        buffer_security_check: None,
        enable_enhanced_instruction_set: None,
        floating_point_model: None,
        warning_level: None,
        debug_information_format: None,
        use_precompiled_header: None,
        compile_as: None,
        runtime_type_info: None,
        minimal_rebuild: None,
        basic_runtime_checks: None,
        enable_function_level_linking: None,
        smaller_type_check: None,
        browse_information: None,
        calling_convention: None,
        floating_point_exceptions: None,
        force_conformance_in_for_loop_scope: None,
        generate_preprocessed_file: None,
        show_includes: None,
        struct_member_alignment: None,
        suppress_startup_banner: None,
        detect_64_bit_portability_problems: None,
        precompiled_header_through: None,
        object_file: None,
        precompiled_header_file: None,
        program_data_base_file_name: None,
        disable_specific_warnings: None,
        additional_include_directories: None,
        preprocessor_definitions: None,
    }
}

impl Optimization {
    /// The text of an optional value; nothing when absent.
    pub open spec fn opt_text(o: Option<Optimization>) -> Seq<char> {
        match o {
            Some(x) => x.text(),
            None => Seq::empty(),
        }
    }

    pub fn opt_as_str(o: &Option<Optimization>) -> (r: &'static str)
        ensures
            r@ == Optimization::opt_text(*o),
    {
        match o {
            Some(x) => x.as_str(),
            None => {
                proof {
                    reveal_strlit("");
                }
                ""
            },
        }
    }
}

impl InlineFunctionExpansion {
    /// The text of an optional value; nothing when absent.
    pub open spec fn opt_text(o: Option<InlineFunctionExpansion>) -> Seq<char> {
        match o {
            Some(x) => x.text(),
            None => Seq::empty(),
        }
    }

    pub fn opt_as_str(o: &Option<InlineFunctionExpansion>) -> (r: &'static str)
        ensures
            r@ == InlineFunctionExpansion::opt_text(*o),
    {
        match o {
            Some(x) => x.as_str(),
            None => {
                proof {
                    reveal_strlit("");
                }
                ""
            },
        }
    }
}

impl EnableIntrinsicFunctions {
    /// The text of an optional value; nothing when absent.
    pub open spec fn opt_text(o: Option<EnableIntrinsicFunctions>) -> Seq<char> {
        match o {
            Some(x) => x.text(),
            None => Seq::empty(),
        }
    }

    pub fn opt_as_str(o: &Option<EnableIntrinsicFunctions>) -> (r: &'static str)
        ensures
            r@ == EnableIntrinsicFunctions::opt_text(*o),
    {
        match o {
            Some(x) => x.as_str(),
            None => {
                proof {
                    reveal_strlit("");
                }
                ""
            },
        }
    }
}

impl OmitFramePointers {
    /// The text of an optional value; nothing when absent.
    pub open spec fn opt_text(o: Option<OmitFramePointers>) -> Seq<char> {
        match o {
            Some(x) => x.text(),
            None => Seq::empty(),
        }
    }

    pub fn opt_as_str(o: &Option<OmitFramePointers>) -> (r: &'static str)
        ensures
            r@ == OmitFramePointers::opt_text(*o),
    {
        match o {
            Some(x) => x.as_str(),
            None => {
                proof {
                    reveal_strlit("");
                }
                ""
            },
        }
    }
}

impl EnableFiberSafeOptimizations {
    /// The text of an optional value; nothing when absent.
    pub open spec fn opt_text(o: Option<EnableFiberSafeOptimizations>) -> Seq<char> {
        match o {
            Some(x) => x.text(),
            None => Seq::empty(),
        }
    }

    pub fn opt_as_str(o: &Option<EnableFiberSafeOptimizations>) -> (r: &'static str)
        ensures
            r@ == EnableFiberSafeOptimizations::opt_text(*o),
    {
        match o {
            Some(x) => x.as_str(),
            None => {
                proof {
                    reveal_strlit("");
                }
                ""
            },
        }
    }
}

impl FavorSizeOrSpeed {
    /// The text of an optional value; nothing when absent.
    pub open spec fn opt_text(o: Option<FavorSizeOrSpeed>) -> Seq<char> {
        match o {
            Some(x) => x.text(),
            None => Seq::empty(),
        }
    }

    pub fn opt_as_str(o: &Option<FavorSizeOrSpeed>) -> (r: &'static str)
        ensures
            r@ == FavorSizeOrSpeed::opt_text(*o),
    {
        match o {
            Some(x) => x.as_str(),
            None => {
                proof {
                    reveal_strlit("");
                }
                ""
            },
        }
    }
}

impl WholeProgramOptimization {
    /// The text of an optional value; nothing when absent.
    pub open spec fn opt_text(o: Option<WholeProgramOptimization>) -> Seq<char> {
        match o {
            Some(x) => x.text(),
            None => Seq::empty(),
        }
    }

    pub fn opt_as_str(o: &Option<WholeProgramOptimization>) -> (r: &'static str)
        ensures
            r@ == WholeProgramOptimization::opt_text(*o),
    {
        match o {
            Some(x) => x.as_str(),
            None => {
                proof {
                    reveal_strlit("");
                }
                ""
            },
        }
    }
}

impl StringPooling {
    /// The text of an optional value; nothing when absent.
    pub open spec fn opt_text(o: Option<StringPooling>) -> Seq<char> {
        match o {
            Some(x) => x.text(),
            None => Seq::empty(),
        }
    }

    pub fn opt_as_str(o: &Option<StringPooling>) -> (r: &'static str)
        ensures
            r@ == StringPooling::opt_text(*o),
    {
        match o {
            Some(x) => x.as_str(),
            None => {
                proof {
                    reveal_strlit("");
                }
                ""
            },
        }
    }
}

impl ExceptionHandling {
    /// The text of an optional value; nothing when absent.
    pub open spec fn opt_text(o: Option<ExceptionHandling>) -> Seq<char> {
        match o {
            Some(x) => x.text(),
            None => Seq::empty(),
        }
    }

    pub fn opt_as_str(o: &Option<ExceptionHandling>) -> (r: &'static str)
        ensures
            r@ == ExceptionHandling::opt_text(*o),
    {
        match o {
            Some(x) => x.as_str(),
            None => {
                proof {
                    reveal_strlit("");
                }
                ""
            },
        }
    }
}

impl RuntimeLibrary {
    /// The text of an optional value; nothing when absent.
    pub open spec fn opt_text(o: Option<RuntimeLibrary>) -> Seq<char> {
        match o {
            Some(x) => x.text(),
            None => Seq::empty(),
        }
    }

    pub fn opt_as_str(o: &Option<RuntimeLibrary>) -> (r: &'static str)
        ensures
            r@ == RuntimeLibrary::opt_text(*o),
    {
        match o {
            Some(x) => x.as_str(),
            None => {
                proof {
                    reveal_strlit("");
                }
                ""
            },
        }
    }
}

impl BufferSecurityCheck {
    /// The text of an optional value; nothing when absent.
    pub open spec fn opt_text(o: Option<BufferSecurityCheck>) -> Seq<char> {
        match o {
            Some(x) => x.text(),
            None => Seq::empty(),
        }
    }

    pub fn opt_as_str(o: &Option<BufferSecurityCheck>) -> (r: &'static str)
        ensures
            r@ == BufferSecurityCheck::opt_text(*o),
    {
        match o {
            Some(x) => x.as_str(),
            None => {
                proof {
                    reveal_strlit("");
                }
                ""
            },
        }
    }
}

impl EnableEnhancedInstructionSet {
    /// The text of an optional value; nothing when absent.
    pub open spec fn opt_text(o: Option<EnableEnhancedInstructionSet>) -> Seq<char> {
        match o {
            Some(x) => x.text(),
            None => Seq::empty(),
        }
    }

    pub fn opt_as_str(o: &Option<EnableEnhancedInstructionSet>) -> (r: &'static str)
        ensures
            r@ == EnableEnhancedInstructionSet::opt_text(*o),
    {
        match o {
            Some(x) => x.as_str(),
            None => {
                proof {
                    reveal_strlit("");
                }
                ""
            },
        }
    }
}

impl FloatingPointModel {
    /// The text of an optional value; nothing when absent.
    pub open spec fn opt_text(o: Option<FloatingPointModel>) -> Seq<char> {
        match o {
            Some(x) => x.text(),
            None => Seq::empty(),
        }
    }

    pub fn opt_as_str(o: &Option<FloatingPointModel>) -> (r: &'static str)
        ensures
            r@ == FloatingPointModel::opt_text(*o),
    {
        match o {
            Some(x) => x.as_str(),
            None => {
                proof {
                    reveal_strlit("");
                }
                ""
            },
        }
    }
}

impl WarningLevel {
    /// The text of an optional value; nothing when absent.
    pub open spec fn opt_text(o: Option<WarningLevel>) -> Seq<char> {
        match o {
            Some(x) => x.text(),
            None => Seq::empty(),
        }
    }

    pub fn opt_as_str(o: &Option<WarningLevel>) -> (r: &'static str)
        ensures
            r@ == WarningLevel::opt_text(*o),
    {
        match o {
            Some(x) => x.as_str(),
            None => {
                proof {
                    reveal_strlit("");
                }
                ""
            },
        }
    }
}

impl DebugInformationFormat {
    /// The text of an optional value; nothing when absent.
    pub open spec fn opt_text(o: Option<DebugInformationFormat>) -> Seq<char> {
        match o {
            Some(x) => x.text(),
            None => Seq::empty(),
        }
    }

    pub fn opt_as_str(o: &Option<DebugInformationFormat>) -> (r: &'static str)
        ensures
            r@ == DebugInformationFormat::opt_text(*o),
    {
        match o {
            Some(x) => x.as_str(),
            None => {
                proof {
                    reveal_strlit("");
                }
                ""
            },
        }
    }
}

impl UsePrecompiledHeader {
    /// The text of an optional value; nothing when absent.
    pub open spec fn opt_text(o: Option<UsePrecompiledHeader>) -> Seq<char> {
        match o {
            Some(x) => x.text(),
            None => Seq::empty(),
        }
    }

    pub fn opt_as_str(o: &Option<UsePrecompiledHeader>) -> (r: &'static str)
        ensures
            r@ == UsePrecompiledHeader::opt_text(*o),
    {
        match o {
            Some(x) => x.as_str(),
            None => {
                proof {
                    reveal_strlit("");
                }
                ""
            },
        }
    }
}

impl CompileAs {
    /// The text of an optional value; nothing when absent.
    pub open spec fn opt_text(o: Option<CompileAs>) -> Seq<char> {
        match o {
            Some(x) => x.text(),
            None => Seq::empty(),
        }
    }

    pub fn opt_as_str(o: &Option<CompileAs>) -> (r: &'static str)
        ensures
            r@ == CompileAs::opt_text(*o),
    {
        match o {
            Some(x) => x.as_str(),
            None => {
                proof {
                    reveal_strlit("");
                }
                ""
            },
        }
    }
}

impl RuntimeTypeInfo {
    /// The text of an optional value; nothing when absent.
    pub open spec fn opt_text(o: Option<RuntimeTypeInfo>) -> Seq<char> {
        match o {
            Some(x) => x.text(),
            None => Seq::empty(),
        }
    }

    pub fn opt_as_str(o: &Option<RuntimeTypeInfo>) -> (r: &'static str)
        ensures
            r@ == RuntimeTypeInfo::opt_text(*o),
    {
        match o {
            Some(x) => x.as_str(),
            None => {
                proof {
                    reveal_strlit("");
                }
                ""
            },
        }
    }
}

impl MinimalRebuild {
    /// The text of an optional value; nothing when absent.
    pub open spec fn opt_text(o: Option<MinimalRebuild>) -> Seq<char> {
        match o {
            Some(x) => x.text(),
            None => Seq::empty(),
        }
    }

    pub fn opt_as_str(o: &Option<MinimalRebuild>) -> (r: &'static str)
        ensures
            r@ == MinimalRebuild::opt_text(*o),
    {
        match o {
            Some(x) => x.as_str(),
            None => {
                proof {
                    reveal_strlit("");
                }
                ""
            },
        }
    }
}

impl EnableFunctionLevelLinking {
    /// The text of an optional value; nothing when absent.
    pub open spec fn opt_text(o: Option<EnableFunctionLevelLinking>) -> Seq<char> {
        match o {
            Some(x) => x.text(),
            None => Seq::empty(),
        }
    }

    pub fn opt_as_str(o: &Option<EnableFunctionLevelLinking>) -> (r: &'static str)
        ensures
            r@ == EnableFunctionLevelLinking::opt_text(*o),
    {
        match o {
            Some(x) => x.as_str(),
            None => {
                proof {
                    reveal_strlit("");
                }
                ""
            },
        }
    }
}

impl SmallerTypeCheck {
    /// The text of an optional value; nothing when absent.
    pub open spec fn opt_text(o: Option<SmallerTypeCheck>) -> Seq<char> {
        match o {
            Some(x) => x.text(),
            None => Seq::empty(),
        }
    }

    pub fn opt_as_str(o: &Option<SmallerTypeCheck>) -> (r: &'static str)
        ensures
            r@ == SmallerTypeCheck::opt_text(*o),
    {
        match o {
            Some(x) => x.as_str(),
            None => {
                proof {
                    reveal_strlit("");
                }
                ""
            },
        }
    }
}

impl FloatingPointExceptions {
    /// The text of an optional value; nothing when absent.
    pub open spec fn opt_text(o: Option<FloatingPointExceptions>) -> Seq<char> {
        match o {
            Some(x) => x.text(),
            None => Seq::empty(),
        }
    }

    pub fn opt_as_str(o: &Option<FloatingPointExceptions>) -> (r: &'static str)
        ensures
            r@ == FloatingPointExceptions::opt_text(*o),
    {
        match o {
            Some(x) => x.as_str(),
            None => {
                proof {
                    reveal_strlit("");
                }
                ""
            },
        }
    }
}

impl ForceConformanceInForLoopScope {
    /// The text of an optional value; nothing when absent.
    pub open spec fn opt_text(o: Option<ForceConformanceInForLoopScope>) -> Seq<char> {
        match o {
            Some(x) => x.text(),
            None => Seq::empty(),
        }
    }

    pub fn opt_as_str(o: &Option<ForceConformanceInForLoopScope>) -> (r: &'static str)
        ensures
            r@ == ForceConformanceInForLoopScope::opt_text(*o),
    {
        match o {
            Some(x) => x.as_str(),
            None => {
                proof {
                    reveal_strlit("");
                }
                ""
            },
        }
    }
}

impl ShowIncludes {
    /// The text of an optional value; nothing when absent.
    pub open spec fn opt_text(o: Option<ShowIncludes>) -> Seq<char> {
        match o {
            Some(x) => x.text(),
            None => Seq::empty(),
        }
    }

    pub fn opt_as_str(o: &Option<ShowIncludes>) -> (r: &'static str)
        ensures
            r@ == ShowIncludes::opt_text(*o),
    {
        match o {
            Some(x) => x.as_str(),
            None => {
                proof {
                    reveal_strlit("");
                }
                ""
            },
        }
    }
}

impl SuppressStartupBanner {
    /// The text of an optional value; nothing when absent.
    pub open spec fn opt_text(o: Option<SuppressStartupBanner>) -> Seq<char> {
        match o {
            Some(x) => x.text(),
            None => Seq::empty(),
        }
    }

    pub fn opt_as_str(o: &Option<SuppressStartupBanner>) -> (r: &'static str)
        ensures
            r@ == SuppressStartupBanner::opt_text(*o),
    {
        match o {
            Some(x) => x.as_str(),
            None => {
                proof {
                    reveal_strlit("");
                }
                ""
            },
        }
    }
}

impl BasicRuntimeChecks {
    /// The text of an optional value; nothing when absent.
    pub open spec fn opt_text(o: Option<BasicRuntimeChecks>) -> Seq<char> {
        match o {
            Some(x) => x.text(),
            None => Seq::empty(),
        }
    }

    pub fn opt_as_str(o: &Option<BasicRuntimeChecks>) -> (r: &'static str)
        ensures
            r@ == BasicRuntimeChecks::opt_text(*o),
    {
        match o {
            Some(x) => x.as_str(),
            None => {
                proof {
                    reveal_strlit("");
                }
                ""
            },
        }
    }
}

impl BrowseInformation {
    /// The text of an optional value; nothing when absent.
    pub open spec fn opt_text(o: Option<BrowseInformation>) -> Seq<char> {
        match o {
            Some(x) => x.text(),
            None => Seq::empty(),
        }
    }

    pub fn opt_as_str(o: &Option<BrowseInformation>) -> (r: &'static str)
        ensures
            r@ == BrowseInformation::opt_text(*o),
    {
        match o {
            Some(x) => x.as_str(),
            None => {
                proof {
                    reveal_strlit("");
                }
                ""
            },
        }
    }
}

impl CallingConvention {
    /// The text of an optional value; nothing when absent.
    pub open spec fn opt_text(o: Option<CallingConvention>) -> Seq<char> {
        match o {
            Some(x) => x.text(),
            None => Seq::empty(),
        }
    }

    pub fn opt_as_str(o: &Option<CallingConvention>) -> (r: &'static str)
        ensures
            r@ == CallingConvention::opt_text(*o),
    {
        match o {
            Some(x) => x.as_str(),
            None => {
                proof {
                    reveal_strlit("");
                }
                ""
            },
        }
    }
}

impl GeneratePreprocessedFile {
    /// The text of an optional value; nothing when absent.
    pub open spec fn opt_text(o: Option<GeneratePreprocessedFile>) -> Seq<char> {
        match o {
            Some(x) => x.text(),
            None => Seq::empty(),
        }
    }

    pub fn opt_as_str(o: &Option<GeneratePreprocessedFile>) -> (r: &'static str)
        ensures
            r@ == GeneratePreprocessedFile::opt_text(*o),
    {
        match o {
            Some(x) => x.as_str(),
            None => {
                proof {
                    reveal_strlit("");
                }
                ""
            },
        }
    }
}

impl StructMemberAlignment {
    /// The text of an optional value; nothing when absent.
    pub open spec fn opt_text(o: Option<StructMemberAlignment>) -> Seq<char> {
        match o {
            Some(x) => x.text(),
            None => Seq::empty(),
        }
    }

    pub fn opt_as_str(o: &Option<StructMemberAlignment>) -> (r: &'static str)
        ensures
            r@ == StructMemberAlignment::opt_text(*o),
    {
        match o {
            Some(x) => x.as_str(),
            None => {
                proof {
                    reveal_strlit("");
                }
                ""
            },
        }
    }
}

impl Detect64BitPortabilityProblems {
    /// The text of an optional value; nothing when absent.
    pub open spec fn opt_text(o: Option<Detect64BitPortabilityProblems>) -> Seq<char> {
        match o {
            Some(x) => x.text(),
            None => Seq::empty(),
        }
    }

    pub fn opt_as_str(o: &Option<Detect64BitPortabilityProblems>) -> (r: &'static str)
        ensures
            r@ == Detect64BitPortabilityProblems::opt_text(*o),
    {
        match o {
            Some(x) => x.as_str(),
            None => {
                proof {
                    reveal_strlit("");
                }
                ""
            },
        }
    }
}

impl GenerateProgramDatabase {
    /// The text of an optional value; nothing when absent.
    pub open spec fn opt_text(o: Option<GenerateProgramDatabase>) -> Seq<char> {
        match o {
            Some(x) => x.text(),
            None => Seq::empty(),
        }
    }

    pub fn opt_as_str(o: &Option<GenerateProgramDatabase>) -> (r: &'static str)
        ensures
            r@ == GenerateProgramDatabase::opt_text(*o),
    {
        match o {
            Some(x) => x.as_str(),
            None => {
                proof {
                    reveal_strlit("");
                }
                ""
            },
        }
    }
}

impl CompileOnly {
    /// The text of an optional value; nothing when absent.
    pub open spec fn opt_text(o: Option<CompileOnly>) -> Seq<char> {
        match o {
            Some(x) => x.text(),
            None => Seq::empty(),
        }
    }

    pub fn opt_as_str(o: &Option<CompileOnly>) -> (r: &'static str)
        ensures
            r@ == CompileOnly::opt_text(*o),
    {
        match o {
            Some(x) => x.as_str(),
            None => {
                proof {
                    reveal_strlit("");
                }
                ""
            },
        }
    }
}


/// The upgrade version that an inherited property sheet stands for; `0` for
/// a sheet that is none of them.
pub open spec fn upgrade_version(s: Seq<char>) -> int {
    if s == "$(VCInstallDir)VCProjectDefaults\\UpgradeFromVC60.vsprops"@
        || s == "UpgradeFromVC60.vsprops"@ {
        60
    } else if s == "$(VCInstallDir)VCProjectDefaults\\UpgradeFromVC70.vsprops"@
        || s == "UpgradeFromVC70.vsprops"@ {
        70
    } else if s == "$(VCInstallDir)VCProjectDefaults\\UpgradeFromVC71.vsprops"@
        || s == "UpgradeFromVC71.vsprops"@ {
        71
    } else {
        0
    }
}

pub open spec fn is_ogg_sheet(s: Seq<char>) -> bool {
    s == "..\\libogg.vsprops"@
}

/// The property sheets that are understood: upgrade sheets (at most one)
/// and the `libogg` sheet.
pub open spec fn sheets_supported(sheets: Seq<Seq<char>>) -> bool {
    &&& forall|k: int|
        0 <= k < sheets.len() ==> upgrade_version(#[trigger] sheets[k]) != 0 || is_ogg_sheet(
            sheets[k],
        )
    &&& forall|i: int, j: int|
        0 <= i < j < sheets.len() ==> !(upgrade_version(#[trigger] sheets[i]) != 0
            && upgrade_version(#[trigger] sheets[j]) != 0)
}

/// The upgrade version of the sheets (`0` when none is an upgrade sheet).
pub open spec fn sheets_version(sheets: Seq<Seq<char>>) -> int
    decreases sheets.len(),
{
    if sheets.len() == 0 {
        0
    } else if upgrade_version(sheets.last()) != 0 {
        upgrade_version(sheets.last())
    } else {
        sheets_version(sheets.drop_last())
    }
}

pub open spec fn ogg_dirs() -> Seq<Seq<char>> {
    seq![
        "..\\..\\..\\..\\libogg-1.1.3\\include"@,
        "..\\..\\..\\..\\ogg\\include"@,
        "..\\..\\..\\..\\..\\..\\..\\core\\ogg\\libogg\\include"@,
    ]
}

/// The include directories that the sheets add: those of `libogg`, once per
/// such sheet.
pub open spec fn sheets_includes(sheets: Seq<Seq<char>>) -> Seq<Seq<char>>
    decreases sheets.len(),
{
    if sheets.len() == 0 {
        Seq::empty()
    } else {
        sheets_includes(sheets.drop_last()) + if is_ogg_sheet(sheets.last()) {
            ogg_dirs()
        } else {
            Seq::empty()
        }
    }
}

pub open spec fn upgrade_defines(v: int) -> Seq<Seq<char>> {
    if v == 60 {
        seq!["_VC80_UPGRADE=0x0600"@]
    } else if v == 70 {
        seq!["_VC80_UPGRADE=0x0700"@]
    } else if v == 71 {
        seq!["_VC80_UPGRADE=0x0710"@]
    } else {
        Seq::empty()
    }
}

pub open spec fn charset_defines(c: Option<CharacterSet>) -> Seq<Seq<char>> {
    match c {
        Some(CharacterSet::_1) => seq!["_UNICODE"@, "UNICODE"@],
        Some(CharacterSet::_2) => seq!["_MBCS"@],
        _ => Seq::empty(),
    }
}

/// What the compiler settings need of a configuration: supported sheets.
pub open spec fn cl_cfg_ok(cfg: Configuration) -> bool {
    opt_list_view(cfg.inherited_property_sheets) matches Some(s) ==> sheets_supported(s)
}

/// The include directories of a step: the tool's, then the sheets'.
pub open spec fn include_dirs_spec(t: CompilerToolView, cfg: Configuration) -> Seq<Seq<char>> {
    list_or_empty(t.additional_include_directories) + match opt_list_view(
        cfg.inherited_property_sheets,
    ) {
        Some(s) => sheets_includes(s),
        None => Seq::empty(),
    }
}

/// The definitions of a step: the tool's, the upgrade version of the sheets,
/// `_WINDLL` for a DLL, and those of the character set.
pub open spec fn defines_spec(t: CompilerToolView, cfg: Configuration) -> Seq<Seq<char>> {
    list_or_empty(t.preprocessor_definitions) + match opt_list_view(cfg.inherited_property_sheets) {
        Some(s) => upgrade_defines(sheets_version(s)),
        None => Seq::empty(),
    } + if cfg.configuration_type == ConfigurationType::_2 {
        seq!["_WINDLL"@]
    } else {
        Seq::empty()
    } + charset_defines(cfg.character_set)
}

pub open spec fn include_piece(env: EnvView, d: Seq<char>) -> Seq<char> {
    " /I "@ + (if starts_with(d, seq!['"']) {
        Seq::empty()
    } else {
        seq!['"']
    }) + env.expand_spec(trim(d)) + if ends_with(d, seq!['"']) {
        Seq::empty()
    } else {
        seq!['"']
    }
}

pub open spec fn define_piece(d: Seq<char>) -> Seq<char> {
    " /D "@ + seq!['"'] + d + seq!['"']
}

pub open spec fn warning_piece(w: Seq<char>) -> Seq<char> {
    " /wd"@ + w
}

/// `WholeProgramOptimization` of the step: the tool's, else on when the
/// configuration asks for it.
pub open spec fn wpo_spec(t: CompilerToolView, cfg: Configuration) -> Option<
    WholeProgramOptimization,
> {
    if cfg.whole_program_optimization == Some(true) && t.whole_program_optimization is None {
        Some(WholeProgramOptimization::_1)
    } else {
        t.whole_program_optimization
    }
}

/// `/FD` whenever debug information is written.
pub open spec fn gpd_spec(t: CompilerToolView) -> Option<GenerateProgramDatabase> {
    match t.debug_information_format {
        Some(DebugInformationFormat::_0) | None => None,
        _ => Some(GenerateProgramDatabase::_1),
    }
}

/// A precompiled header is created or used.
pub open spec fn pch_active(t: CompilerToolView) -> bool {
    t.use_precompiled_header matches Some(u) && u != UsePrecompiledHeader::_0
}

pub open spec fn pch_through(t: CompilerToolView) -> Seq<char> {
    match t.precompiled_header_through {
        Some(x) => x,
        None => "stdafx.h"@,
    }
}

/// `/Yc"header"` or `/Yu"header"`.
pub open spec fn pch_flag_spec(t: CompilerToolView) -> Seq<char> {
    if pch_active(t) {
        (t.use_precompiled_header->0).text() + seq!['"'] + pch_through(t) + seq!['"']
    } else {
        Seq::empty()
    }
}

/// The precompiled header file, with its default when a header is used.
pub open spec fn pch_file_spec(t: CompilerToolView) -> Option<Seq<char>> {
    match t.precompiled_header_file {
        Some(f) => Some(f),
        None => if pch_active(t) {
            Some("$(IntDir)\\$(TargetName).pch"@)
        } else {
            None
        },
    }
}

pub open spec fn pdb_spec(t: CompilerToolView) -> Seq<char> {
    match t.program_data_base_file_name {
        Some(x) => x,
        None => "$(IntDir)\\vc90.pdb"@,
    }
}

/// A quoted path flag such as `/Fp"..."`, when the path is not empty.
pub open spec fn path_flag(env: EnvView, name: Seq<char>, p: Seq<char>) -> Seq<char> {
    if p.len() > 0 {
        seq![' '] + name + seq!['"'] + env.expand_spec(p) + seq!['"']
    } else {
        Seq::empty()
    }
}

pub open spec fn group1_spec(t: CompilerToolView, cfg: Configuration) -> Seq<char> {
    words(
        seq![
            Optimization::opt_text(t.optimization),
            InlineFunctionExpansion::opt_text(t.inline_function_expansion),
            EnableIntrinsicFunctions::opt_text(t.enable_intrinsic_functions),
            FavorSizeOrSpeed::opt_text(t.favor_size_or_speed),
            OmitFramePointers::opt_text(t.omit_frame_pointers),
            EnableFiberSafeOptimizations::opt_text(t.enable_fiber_safe_optimizations),
            WholeProgramOptimization::opt_text(wpo_spec(t, cfg)),
        ],
    )
}

pub open spec fn group2_spec(t: CompilerToolView) -> Seq<char> {
    words(
        seq![
            StringPooling::opt_text(t.string_pooling),
            GenerateProgramDatabase::opt_text(gpd_spec(t)),
            ExceptionHandling::opt_text(Some(or_else(t.exception_handling, Some(ExceptionHandling::_1))->0)),
            RuntimeLibrary::opt_text(t.runtime_library),
            BufferSecurityCheck::opt_text(t.buffer_security_check),
            EnableEnhancedInstructionSet::opt_text(t.enable_enhanced_instruction_set),
            EnableFunctionLevelLinking::opt_text(t.enable_function_level_linking),
            FloatingPointModel::opt_text(t.floating_point_model),
            RuntimeTypeInfo::opt_text(t.runtime_type_info),
            pch_flag_spec(t),
        ],
    )
}

pub open spec fn group3_spec(t: CompilerToolView) -> Seq<char> {
    words(
        seq![
            WarningLevel::opt_text(t.warning_level),
            "/c"@,
            DebugInformationFormat::opt_text(t.debug_information_format),
            MinimalRebuild::opt_text(t.minimal_rebuild),
            BasicRuntimeChecks::opt_text(t.basic_runtime_checks),
            SmallerTypeCheck::opt_text(t.smaller_type_check),
            BrowseInformation::opt_text(t.browse_information),
            CallingConvention::opt_text(t.calling_convention),
            CompileAs::opt_text(t.compile_as),
            FloatingPointExceptions::opt_text(t.floating_point_exceptions),
            ForceConformanceInForLoopScope::opt_text(t.force_conformance_in_for_loop_scope),
            GeneratePreprocessedFile::opt_text(t.generate_preprocessed_file),
            ShowIncludes::opt_text(t.show_includes),
            StructMemberAlignment::opt_text(t.struct_member_alignment),
            Detect64BitPortabilityProblems::opt_text(t.detect_64_bit_portability_problems),
        ],
    )
}

/// `/MP`, with or without a process count: it makes one `cl` call build
/// its sources in parallel, which the build graph already does by running
/// one compile step per source.
pub open spec fn is_mp(p: Seq<char>) -> bool {
    p.len() >= 3 && p[0] == '/' && p[1] == 'M' && p[2] == 'P' && all_digits(p.skip(3))
}

/// The pieces that are not `/MP`, in order.
pub open spec fn without_mp(ps: Seq<Seq<char>>) -> Seq<Seq<char>>
    decreases ps.len(),
{
    if ps.len() == 0 {
        ps
    } else if is_mp(ps.last()) {
        without_mp(ps.drop_last())
    } else {
        without_mp(ps.drop_last()).push(ps.last())
    }
}

/// The additional options with every space-separated `/MP` taken out; the
/// rest of the text is kept as it is.
pub open spec fn strip_mp(a: Seq<char>) -> Seq<char> {
    join(without_mp(split(a, seq![' '])), seq![' '])
}

fn is_mp_str(p: &str) -> (r: bool)
    ensures
        r == is_mp(p@),
{
    let v = chars_of(p);
    if v.len() < 3 || v[0] != '/' || v[1] != 'M' || v[2] != 'P' {
        return false;
    }
    let mut k: usize = 3;
    while k < v.len()
        invariant
            3 <= k <= v.len(),
            v@ == p@,
            forall|j: int| 3 <= j < k ==> is_ascii_digit(#[trigger] v@[j]),
        decreases v.len() - k,
    {
        if !ascii_digit(v[k]) {
            assert(p@.skip(3)[k - 3] == v@[k as int]);
            return false;
        }
        k += 1;
    }
    assert forall|j: int| 0 <= j < p@.skip(3).len() implies is_ascii_digit(#[trigger] p@.skip(3)[j]) by {
        assert(p@.skip(3)[j] == v@[j + 3]);
    }
    true
}

/// The additional options without `/MP` (see [`strip_mp`]).
pub fn strip_mp_str(a: &str) -> (r: String)
    ensures
        r@ == strip_mp(a@),
{
    let seps = vec![' '];
    let pieces = split_str(a, &seps);
    let ghost pv = seq_of_strings(pieces@);
    let mut kept: Vec<String> = Vec::new();
    let mut i: usize = 0;
    assert(pv.take(0) =~= Seq::<Seq<char>>::empty());
    while i < pieces.len()
        invariant
            i <= pieces.len(),
            pv == seq_of_strings(pieces@),
            seq_of_strings(kept@) == without_mp(pv.take(i as int)),
        decreases pieces.len() - i,
    {
        assert(pv.take(i + 1).drop_last() =~= pv.take(i as int));
        assert(pv.take(i + 1).last() == pieces@[i as int]@);
        if !is_mp_str(pieces[i].as_str()) {
            let ghost before = seq_of_strings(kept@);
            kept.push(pieces[i].clone());
            assert(seq_of_strings(kept@) =~= before.push(pieces@[i as int]@));
        }
        i += 1;
    }
    assert(pv.take(pieces.len() as int) =~= pv);
    assert(seps@ =~= seq![' ']);
    proof {
        reveal_strlit(" ");
        assert(" "@ =~= seq![' ']);
    }
    join_strings(&kept, " ")
}

pub open spec fn tail_spec(t: CompilerToolView) -> Seq<char> {
    pieces(list_or_empty(t.disable_specific_warnings), |w: Seq<char>| warning_piece(w)) + match t.additional_options {
        Some(a) => if strip_mp(a).len() > 0 {
            "  "@ + strip_mp(a)
        } else {
            Seq::empty()
        },
        None => Seq::empty(),
    } + match t.suppress_startup_banner {
        Some(x) => seq![' '] + x.text(),
        None => Seq::empty(),
    }
}

/// The `cl` command line of the settings `t` in the configuration `cfg`
/// (without `/Fo` and the sources): optimization flags, `/I` and `/D`
/// options, code generation flags, `/Fp` and `/Fd`, diagnostics and
/// language flags, disabled warnings, the additional options (without
/// `/MP`, see [`strip_mp`]) and `/nologo`,
/// with leading whitespace removed.
pub open spec fn cl_flags_spec(t: CompilerToolView, cfg: Configuration, env: EnvView) -> Seq<char> {
    trim_start(
        group1_spec(t, cfg)
            + pieces(include_dirs_spec(t, cfg), |d: Seq<char>| include_piece(env, d))
            + pieces(defines_spec(t, cfg), |d: Seq<char>| define_piece(d))
            + seq![' '] + group2_spec(t)
            + match pch_file_spec(t) {
                Some(f) => path_flag(env, "/Fp"@, f),
                None => Seq::empty(),
            }
            + path_flag(env, "/Fd"@, pdb_spec(t))
            + seq![' '] + group3_spec(t)
            + tail_spec(t),
    )
}

/// `/Fo` with the object directory (or file) of the settings, when
/// `ObjectFile` (by default `$(IntDir)`) is not empty (see
/// [`obj_output_spec`]).
pub open spec fn obj_flag_spec(t: CompilerToolView, env: EnvView) -> Seq<char> {
    let raw = match t.object_file {
        Some(x) => x,
        None => "$(IntDir)"@,
    };
    if raw.len() > 0 {
        seq![' '] + "/Fo"@ + seq!['"'] + obj_output_spec(t, env) + seq!['"']
    } else {
        Seq::empty()
    }
}

/// The command line up to `/Fp`: flags, `/I`, `/D`, code generation.
pub open spec fn cl_head_spec(t: CompilerToolView, cfg: Configuration, env: EnvView) -> Seq<char> {
    group1_spec(t, cfg) + pieces(include_dirs_spec(t, cfg), |d: Seq<char>| include_piece(env, d)) + pieces(
        defines_spec(t, cfg),
        |d: Seq<char>| define_piece(d),
    ) + seq![' '] + group2_spec(t) + match pch_file_spec(t) {
        Some(f) => path_flag(env, "/Fp"@, f),
        None => Seq::empty(),
    }
}

/// The command line from `/Fd` on.
pub open spec fn cl_rest_spec(t: CompilerToolView, env: EnvView) -> Seq<char> {
    path_flag(env, "/Fd"@, pdb_spec(t)) + seq![' '] + group3_spec(t) + tail_spec(t)
}

proof fn lemma_flags_parts(t: CompilerToolView, cfg: Configuration, env: EnvView)
    ensures
        cl_flags_spec(t, cfg, env) == trim_start(cl_head_spec(t, cfg, env) + cl_rest_spec(t, env)),
        cl_flags_fo_spec(t, cfg, env) == trim_start(
            cl_head_spec(t, cfg, env) + obj_flag_spec(t, env) + cl_rest_spec(t, env),
        ),
{
    let a = group1_spec(t, cfg);
    let b = pieces(include_dirs_spec(t, cfg), |d: Seq<char>| include_piece(env, d));
    let c = pieces(defines_spec(t, cfg), |d: Seq<char>| define_piece(d));
    let d = group2_spec(t);
    let p = match pch_file_spec(t) {
        Some(f) => path_flag(env, "/Fp"@, f),
        None => Seq::empty(),
    };
    let o = obj_flag_spec(t, env);
    let f = path_flag(env, "/Fd"@, pdb_spec(t));
    let g = group3_spec(t);
    let h = tail_spec(t);
    assert(cl_head_spec(t, cfg, env) == a + b + c + seq![' '] + d + p);
    assert(cl_rest_spec(t, env) == f + seq![' '] + g + h);
    assert(a + b + c + seq![' '] + d + p + f + seq![' '] + g + h =~= (a + b + c + seq![' '] + d + p) + (f + seq![' ']
        + g + h));
    assert(a + b + c + seq![' '] + d + p + o + f + seq![' '] + g + h =~= (a + b + c + seq![' '] + d + p) + o + (f
        + seq![' '] + g + h));
}

/// [`cl_flags_spec`] with `/Fo` between `/Fp` and `/Fd`: the command line
/// of a compile step that is not given its object directory separately.
pub open spec fn cl_flags_fo_spec(t: CompilerToolView, cfg: Configuration, env: EnvView) -> Seq<char> {
    trim_start(
        group1_spec(t, cfg)
            + pieces(include_dirs_spec(t, cfg), |d: Seq<char>| include_piece(env, d))
            + pieces(defines_spec(t, cfg), |d: Seq<char>| define_piece(d))
            + seq![' '] + group2_spec(t)
            + match pch_file_spec(t) {
                Some(f) => path_flag(env, "/Fp"@, f),
                None => Seq::empty(),
            }
            + obj_flag_spec(t, env)
            + path_flag(env, "/Fd"@, pdb_spec(t))
            + seq![' '] + group3_spec(t)
            + tail_spec(t),
    )
}

/// The upgrade version of one sheet, `1` for the `libogg` sheet, `0` else.
fn sheet_kind(s: &String) -> (r: u8)
    ensures
        r == 1 <==> is_ogg_sheet(s@),
        r != 1 ==> r as int == upgrade_version(s@),
        is_ogg_sheet(s@) ==> upgrade_version(s@) == 0,
{
    proof {
        reveal_strlit("..\\libogg.vsprops");
        reveal_strlit("UpgradeFromVC60.vsprops");
        reveal_strlit("UpgradeFromVC70.vsprops");
        reveal_strlit("UpgradeFromVC71.vsprops");
        reveal_strlit("$(VCInstallDir)VCProjectDefaults\\UpgradeFromVC60.vsprops");
        reveal_strlit("$(VCInstallDir)VCProjectDefaults\\UpgradeFromVC70.vsprops");
        reveal_strlit("$(VCInstallDir)VCProjectDefaults\\UpgradeFromVC71.vsprops");
    }
    assert("..\\libogg.vsprops"@.len() == 17);
    assert("UpgradeFromVC60.vsprops"@.len() == 23);
    assert("UpgradeFromVC70.vsprops"@.len() == 23);
    assert("UpgradeFromVC71.vsprops"@.len() == 23);
    assert("$(VCInstallDir)VCProjectDefaults\\UpgradeFromVC60.vsprops"@.len() > 23);
    assert("$(VCInstallDir)VCProjectDefaults\\UpgradeFromVC70.vsprops"@.len() > 23);
    assert("$(VCInstallDir)VCProjectDefaults\\UpgradeFromVC71.vsprops"@.len() > 23);
    let x = s.as_str();
    if str_eq(x, "$(VCInstallDir)VCProjectDefaults\\UpgradeFromVC60.vsprops") || str_eq(x, "UpgradeFromVC60.vsprops") {
        60
    } else if str_eq(x, "$(VCInstallDir)VCProjectDefaults\\UpgradeFromVC70.vsprops") || str_eq(x, "UpgradeFromVC70.vsprops") {
        70
    } else if str_eq(x, "$(VCInstallDir)VCProjectDefaults\\UpgradeFromVC71.vsprops") || str_eq(x, "UpgradeFromVC71.vsprops") {
        71
    } else if str_eq(x, "..\\libogg.vsprops") {
        1
    } else {
        0
    }
}

fn lists_of_sheets(t: &CompilerTool, cfg: &Configuration) -> (r: (Vec<String>, Vec<String>))
    requires
        cl_cfg_ok(*cfg),
    ensures
        seq_of_strings(r.0@) == include_dirs_spec(t@, *cfg),
        seq_of_strings(r.1@) == list_or_empty(t@.preprocessor_definitions) + match opt_list_view(
            cfg.inherited_property_sheets,
        ) {
            Some(s) => upgrade_defines(sheets_version(s)),
            None => Seq::empty(),
        },
{
    let mut incs = match &t.additional_include_directories {
        Some(v) => clone_strings(v),
        None => Vec::new(),
    };
    let mut defs = match &t.preprocessor_definitions {
        Some(v) => clone_strings(v),
        None => Vec::new(),
    };
    let ghost inc0 = seq_of_strings(incs@);
    assert(inc0 == list_or_empty(t@.additional_include_directories));
    let ghost def0 = seq_of_strings(defs@);
    match &cfg.inherited_property_sheets {
        None => {
            assert(seq_of_strings(incs@) =~= include_dirs_spec(t@, *cfg));
            assert(seq_of_strings(defs@) =~= def0 + Seq::<Seq<char>>::empty());
        },
        Some(sheets) => {
            let ghost ss = seq_of_strings(sheets@);
            let mut version: u8 = 0;
            let ghost mut seen: int = 0;
            let mut i: usize = 0;
            assert(ss.take(0) =~= Seq::<Seq<char>>::empty());
            while i < sheets.len()
                invariant
                    i <= sheets.len(),
                    ss == seq_of_strings(sheets@),
                    sheets_supported(ss),
                    seq_of_strings(incs@) == inc0 + sheets_includes(ss.take(i as int)),
                    version as int == sheets_version(ss.take(i as int)),
                    version != 0 ==> 0 <= seen < i && upgrade_version(ss[seen]) != 0,
                decreases sheets.len() - i,
            {
                let kind = sheet_kind(&sheets[i]);
                assert(ss[i as int] == sheets@[i as int]@);
                assert(ss.take(i + 1).drop_last() =~= ss.take(i as int));
                assert(ss.take(i + 1).last() == ss[i as int]);
                if kind == 1 {
                    let ghost before = seq_of_strings(incs@);
                    incs.push("..\\..\\..\\..\\libogg-1.1.3\\include".to_owned());
                    incs.push("..\\..\\..\\..\\ogg\\include".to_owned());
                    incs.push("..\\..\\..\\..\\..\\..\\..\\core\\ogg\\libogg\\include".to_owned());
                    assert(seq_of_strings(incs@) =~= before + ogg_dirs());
                    assert(seq_of_strings(incs@) =~= inc0 + sheets_includes(ss.take(i + 1)));
                } else {
                    assert(upgrade_version(ss[i as int]) != 0);
                    if version != 0 {
                        assert(upgrade_version(ss[seen]) != 0);
                        assert(false);
                    }
                    version = kind;
                    proof {
                        seen = i as int;
                    }
                    assert(seq_of_strings(incs@) =~= inc0 + sheets_includes(ss.take(i + 1)));
                }
                i += 1;
            }
            assert(ss.take(sheets.len() as int) =~= ss);
            let ghost before = seq_of_strings(defs@);
            if version == 60 {
                defs.push("_VC80_UPGRADE=0x0600".to_owned());
            } else if version == 70 {
                defs.push("_VC80_UPGRADE=0x0700".to_owned());
            } else if version == 71 {
                defs.push("_VC80_UPGRADE=0x0710".to_owned());
            }
            assert(seq_of_strings(defs@) =~= before + upgrade_defines(sheets_version(ss)));
            assert(seq_of_strings(incs@) =~= include_dirs_spec(t@, *cfg));
        },
    }
    (incs, defs)
}

fn push_include_pieces(out: &mut String, dirs: &Vec<String>, env: &MsBuildEnvironment)
    ensures
        final(out)@ == old(out)@ + pieces(seq_of_strings(dirs@), |d: Seq<char>| include_piece(env@, d)),
{
    let ghost xs = seq_of_strings(dirs@);
    let ghost f = |d: Seq<char>| include_piece(env@, d);
    let ghost base = out@;
    let mut i: usize = 0;
    assert(xs.take(0) =~= Seq::<Seq<char>>::empty());
    while i < dirs.len()
        invariant
            i <= dirs.len(),
            xs == seq_of_strings(dirs@),
            f == (|d: Seq<char>| include_piece(env@, d)),
            out@ == base + pieces(xs.take(i as int), f),
        decreases dirs.len() - i,
    {
        proof {
            lemma_pieces_step(xs, i as int, f);
        }
        let d = &dirs[i];
        assert(xs[i as int] == d@);
        if d.as_str().unicode_len() > 0 {
            let ghost before = out@;
            let v = crate::text::chars_of(d.as_str());
            assert(v@ == d@);
            push_str(out, " /I ");
            let opens = v.len() > 0 && v[0] == '"';
            if !opens {
                push_char(out, '"');
            }
            let t = trim_str(d.as_str());
            let e = env.expand(t.as_str());
            push_str(out, e.as_str());
            let closes = v.len() > 0 && v[v.len() - 1] == '"';
            if !closes {
                push_char(out, '"');
            }
            proof {
                reveal_strlit(" /I ");
                assert(d@.len() > 0);
                assert(starts_with(d@, seq!['"']) == opens) by {
                    assert(d@.take(1)[0] == v@[0]);
                    if opens {
                        assert(d@.take(1) =~= seq!['"']);
                    } else {
                        assert(d@.take(1)[0] != seq!['"'][0]);
                    }
                }
                assert(ends_with(d@, seq!['"']) == closes) by {
                    assert(d@.skip(d@.len() - 1)[0] == v@[v.len() - 1]);
                    if closes {
                        assert(d@.skip(d@.len() - 1) =~= seq!['"']);
                    } else {
                        assert(d@.skip(d@.len() - 1)[0] != seq!['"'][0]);
                    }
                }
                assert(out@ =~= before + include_piece(env@, d@));
            }
        } else {
            assert(out@ =~= out@ + Seq::<char>::empty());
        }
        i += 1;
    }
    assert(xs.take(dirs.len() as int) =~= xs);
}

fn push_define_pieces(out: &mut String, defs: &Vec<String>)
    ensures
        final(out)@ == old(out)@ + pieces(seq_of_strings(defs@), |d: Seq<char>| define_piece(d)),
{
    let ghost xs = seq_of_strings(defs@);
    let ghost f = |d: Seq<char>| define_piece(d);
    let ghost base = out@;
    let mut i: usize = 0;
    assert(xs.take(0) =~= Seq::<Seq<char>>::empty());
    while i < defs.len()
        invariant
            i <= defs.len(),
            xs == seq_of_strings(defs@),
            f == (|d: Seq<char>| define_piece(d)),
            out@ == base + pieces(xs.take(i as int), f),
        decreases defs.len() - i,
    {
        proof {
            lemma_pieces_step(xs, i as int, f);
        }
        let d = &defs[i];
        assert(xs[i as int] == d@);
        if d.as_str().unicode_len() > 0 {
            let ghost before = out@;
            push_str(out, " /D ");
            push_char(out, '"');
            push_str(out, d.as_str());
            push_char(out, '"');
            assert(out@ =~= before + define_piece(d@));
        } else {
            assert(out@ =~= out@ + Seq::<char>::empty());
        }
        i += 1;
    }
    assert(xs.take(defs.len() as int) =~= xs);
}

fn push_warning_pieces(out: &mut String, ws: &Vec<String>)
    ensures
        final(out)@ == old(out)@ + pieces(seq_of_strings(ws@), |w: Seq<char>| warning_piece(w)),
{
    let ghost xs = seq_of_strings(ws@);
    let ghost f = |w: Seq<char>| warning_piece(w);
    let ghost base = out@;
    let mut i: usize = 0;
    assert(xs.take(0) =~= Seq::<Seq<char>>::empty());
    while i < ws.len()
        invariant
            i <= ws.len(),
            xs == seq_of_strings(ws@),
            f == (|w: Seq<char>| warning_piece(w)),
            out@ == base + pieces(xs.take(i as int), f),
        decreases ws.len() - i,
    {
        proof {
            lemma_pieces_step(xs, i as int, f);
        }
        let w = &ws[i];
        assert(xs[i as int] == w@);
        if w.as_str().unicode_len() > 0 {
            let ghost before = out@;
            push_str(out, " /wd");
            push_str(out, w.as_str());
            assert(out@ =~= before + warning_piece(w@));
        } else {
            assert(out@ =~= out@ + Seq::<char>::empty());
        }
        i += 1;
    }
    assert(xs.take(ws.len() as int) =~= xs);
}

fn push_path_flag(out: &mut String, env: &MsBuildEnvironment, name: &str, p: &str)
    ensures
        final(out)@ == old(out)@ + path_flag(env@, name@, p@),
{
    let ghost before = out@;
    if p.unicode_len() > 0 {
        push_char(out, ' ');
        push_str(out, name);
        push_char(out, '"');
        let e = env.expand(p);
        push_str(out, e.as_str());
        push_char(out, '"');
        assert(out@ =~= before + path_flag(env@, name@, p@));
    } else {
        assert(out@ =~= before + path_flag(env@, name@, p@));
    }
}

impl CompilerTool {
    fn group1(&self, cfg: &Configuration) -> (r: String)
        ensures
            r@ == group1_spec(self@, *cfg),
    {
        let wpo = if cfg.whole_program_optimization == Some(true) && self.whole_program_optimization.is_none() {
            Some(WholeProgramOptimization::_1)
        } else {
            self.whole_program_optimization
        };
        let items: Vec<&str> = vec![
            Optimization::opt_as_str(&self.optimization),
            InlineFunctionExpansion::opt_as_str(&self.inline_function_expansion),
            EnableIntrinsicFunctions::opt_as_str(&self.enable_intrinsic_functions),
            FavorSizeOrSpeed::opt_as_str(&self.favor_size_or_speed),
            OmitFramePointers::opt_as_str(&self.omit_frame_pointers),
            EnableFiberSafeOptimizations::opt_as_str(&self.enable_fiber_safe_optimizations),
            WholeProgramOptimization::opt_as_str(&wpo),
        ];
        assert(strs_view(items@) =~= seq![
            Optimization::opt_text(self@.optimization),
            InlineFunctionExpansion::opt_text(self@.inline_function_expansion),
            EnableIntrinsicFunctions::opt_text(self@.enable_intrinsic_functions),
            FavorSizeOrSpeed::opt_text(self@.favor_size_or_speed),
            OmitFramePointers::opt_text(self@.omit_frame_pointers),
            EnableFiberSafeOptimizations::opt_text(self@.enable_fiber_safe_optimizations),
            WholeProgramOptimization::opt_text(wpo_spec(self@, *cfg)),
        ]);
        join_words(&items)
    }

    fn pch_flag(&self) -> (r: String)
        ensures
            r@ == pch_flag_spec(self@),
    {
        match self.use_precompiled_header {
            Some(u) => {
                if u != UsePrecompiledHeader::_0 {
                    let mut flag = u.as_str().to_owned();
                    push_char(&mut flag, '"');
                    match &self.precompiled_header_through {
                        Some(h) => push_str(&mut flag, h.as_str()),
                        None => push_str(&mut flag, "stdafx.h"),
                    }
                    push_char(&mut flag, '"');
                    assert(flag@ =~= pch_flag_spec(self@));
                    flag
                } else {
                    String::new()
                }
            },
            None => String::new(),
        }
    }

    fn group2(&self) -> (r: String)
        ensures
            r@ == group2_spec(self@),
    {
        let gpd = match self.debug_information_format {
            Some(DebugInformationFormat::_0) | None => None,
            _ => Some(GenerateProgramDatabase::_1),
        };
        let eh = Some(
            match self.exception_handling {
                Some(e) => e,
                None => ExceptionHandling::_1,
            },
        );
        let pch = self.pch_flag();
        let items: Vec<&str> = vec![
            StringPooling::opt_as_str(&self.string_pooling),
            GenerateProgramDatabase::opt_as_str(&gpd),
            ExceptionHandling::opt_as_str(&eh),
            RuntimeLibrary::opt_as_str(&self.runtime_library),
            BufferSecurityCheck::opt_as_str(&self.buffer_security_check),
            EnableEnhancedInstructionSet::opt_as_str(&self.enable_enhanced_instruction_set),
            EnableFunctionLevelLinking::opt_as_str(&self.enable_function_level_linking),
            FloatingPointModel::opt_as_str(&self.floating_point_model),
            RuntimeTypeInfo::opt_as_str(&self.runtime_type_info),
            pch.as_str(),
        ];
        assert(strs_view(items@) =~= seq![
            StringPooling::opt_text(self@.string_pooling),
            GenerateProgramDatabase::opt_text(gpd_spec(self@)),
            ExceptionHandling::opt_text(Some(or_else(self@.exception_handling, Some(ExceptionHandling::_1))->0)),
            RuntimeLibrary::opt_text(self@.runtime_library),
            BufferSecurityCheck::opt_text(self@.buffer_security_check),
            EnableEnhancedInstructionSet::opt_text(self@.enable_enhanced_instruction_set),
            EnableFunctionLevelLinking::opt_text(self@.enable_function_level_linking),
            FloatingPointModel::opt_text(self@.floating_point_model),
            RuntimeTypeInfo::opt_text(self@.runtime_type_info),
            pch_flag_spec(self@),
        ]);
        join_words(&items)
    }

    fn group3(&self) -> (r: String)
        ensures
            r@ == group3_spec(self@),
    {
        let items: Vec<&str> = vec![
            WarningLevel::opt_as_str(&self.warning_level),
            CompileOnly::_1.as_str(),
            DebugInformationFormat::opt_as_str(&self.debug_information_format),
            MinimalRebuild::opt_as_str(&self.minimal_rebuild),
            BasicRuntimeChecks::opt_as_str(&self.basic_runtime_checks),
            SmallerTypeCheck::opt_as_str(&self.smaller_type_check),
            BrowseInformation::opt_as_str(&self.browse_information),
            CallingConvention::opt_as_str(&self.calling_convention),
            CompileAs::opt_as_str(&self.compile_as),
            FloatingPointExceptions::opt_as_str(&self.floating_point_exceptions),
            ForceConformanceInForLoopScope::opt_as_str(&self.force_conformance_in_for_loop_scope),
            GeneratePreprocessedFile::opt_as_str(&self.generate_preprocessed_file),
            ShowIncludes::opt_as_str(&self.show_includes),
            StructMemberAlignment::opt_as_str(&self.struct_member_alignment),
            Detect64BitPortabilityProblems::opt_as_str(&self.detect_64_bit_portability_problems),
        ];
        assert(strs_view(items@) =~= seq![
            WarningLevel::opt_text(self@.warning_level),
            "/c"@,
            DebugInformationFormat::opt_text(self@.debug_information_format),
            MinimalRebuild::opt_text(self@.minimal_rebuild),
            BasicRuntimeChecks::opt_text(self@.basic_runtime_checks),
            SmallerTypeCheck::opt_text(self@.smaller_type_check),
            BrowseInformation::opt_text(self@.browse_information),
            CallingConvention::opt_text(self@.calling_convention),
            CompileAs::opt_text(self@.compile_as),
            FloatingPointExceptions::opt_text(self@.floating_point_exceptions),
            ForceConformanceInForLoopScope::opt_text(self@.force_conformance_in_for_loop_scope),
            GeneratePreprocessedFile::opt_text(self@.generate_preprocessed_file),
            ShowIncludes::opt_text(self@.show_includes),
            StructMemberAlignment::opt_text(self@.struct_member_alignment),
            Detect64BitPortabilityProblems::opt_text(self@.detect_64_bit_portability_problems),
        ]);
        join_words(&items)
    }

    fn push_tail(&self, out: &mut String)
        ensures
            final(out)@ == old(out)@ + tail_spec(self@),
    {
        let ghost base = out@;
        let empty: Vec<String> = Vec::new();
        let ws = match &self.disable_specific_warnings {
            Some(v) => v,
            None => &empty,
        };
        assert(seq_of_strings(empty@) =~= Seq::<Seq<char>>::empty());
        push_warning_pieces(out, ws);
        let ghost mid = out@;
        match &self.additional_options {
            Some(a) => {
                let kept = strip_mp_str(a.as_str());
                if kept.as_str().unicode_len() > 0 {
                    push_char(out, ' ');
                    push_char(out, ' ');
                    push_str(out, kept.as_str());
                }
            },
            None => {},
        }
        let ghost mid2 = out@;
        match &self.suppress_startup_banner {
            Some(x) => {
                push_char(out, ' ');
                push_str(out, x.as_str());
            },
            None => {},
        }
        proof {
            reveal_strlit("  ");
        }
        assert(out@ =~= base + tail_spec(self@));
    }

    /// The `cl` command line of these settings (see [`cl_flags_spec`]).
    pub fn to_flags_impl(&self, cfg: &Configuration, env: &MsBuildEnvironment) -> (r: String)
        requires
            cl_cfg_ok(*cfg),
        ensures
            r@ == cl_flags_spec(self@, *cfg, env@),
    {
        self.flags_text(cfg, env, false)
    }

    /// The `cl` command line of these settings with `/Fo` (see
    /// [`cl_flags_fo_spec`]).
    pub fn to_flags_impl_with_object_file(&self, cfg: &Configuration, env: &MsBuildEnvironment) -> (r: String)
        requires
            cl_cfg_ok(*cfg),
        ensures
            r@ == cl_flags_fo_spec(self@, *cfg, env@),
    {
        self.flags_text(cfg, env, true)
    }

    fn push_obj_flag(&self, out: &mut String, env: &MsBuildEnvironment)
        ensures
            final(out)@ == old(out)@ + obj_flag_spec(self@, env@),
    {
        proof {
            reveal_strlit("$(IntDir)");
            reveal_strlit("/Fo");
        }
        let ghost before = out@;
        let raw: &str = match &self.object_file {
            Some(o) => o.as_str(),
            None => "$(IntDir)",
        };
        if raw.unicode_len() > 0 {
            let o = self.obj_output(env);
            push_char(out, ' ');
            push_str(out, "/Fo");
            push_char(out, '"');
            push_str(out, o.as_str());
            push_char(out, '"');
        }
        assert(out@ =~= before + obj_flag_spec(self@, env@));
    }

    fn flags_head(&self, cfg: &Configuration, env: &MsBuildEnvironment) -> (r: String)
        requires
            cl_cfg_ok(*cfg),
        ensures
            r@ == cl_head_spec(self@, *cfg, env@),
    {
        let (incs, mut defs) = lists_of_sheets(self, cfg);
        let ghost defs0 = seq_of_strings(defs@);
        if cfg.configuration_type == ConfigurationType::_2 {
            defs.push("_WINDLL".to_owned());
        }
        let ghost defs1 = seq_of_strings(defs@);
        match cfg.character_set {
            Some(CharacterSet::_1) => {
                defs.push("_UNICODE".to_owned());
                defs.push("UNICODE".to_owned());
            },
            Some(CharacterSet::_2) => {
                defs.push("_MBCS".to_owned());
            },
            _ => {},
        }
        assert(seq_of_strings(defs@) =~= defines_spec(self@, *cfg));
        let mut result = self.group1(cfg);
        push_include_pieces(&mut result, &incs, env);
        push_define_pieces(&mut result, &defs);
        push_char(&mut result, ' ');
        let g2 = self.group2();
        push_str(&mut result, g2.as_str());
        let ghost part1 = result@;
        assert(part1 =~= group1_spec(self@, *cfg) + pieces(
            include_dirs_spec(self@, *cfg),
            |d: Seq<char>| include_piece(env@, d),
        ) + pieces(defines_spec(self@, *cfg), |d: Seq<char>| define_piece(d)) + seq![' ']
            + group2_spec(self@));
        let pch_file: Option<&str> = match &self.precompiled_header_file {
            Some(f) => Some(f.as_str()),
            None => match self.use_precompiled_header {
                Some(u) => if u != UsePrecompiledHeader::_0 {
                    Some("$(IntDir)\\$(TargetName).pch")
                } else {
                    None
                },
                None => None,
            },
        };
        let ghost before_fp = result@;
        match pch_file {
            Some(f) => push_path_flag(&mut result, env, "/Fp", f),
            None => {},
        }
        assert(result@ =~= before_fp + match pch_file_spec(self@) {
            Some(f) => path_flag(env@, "/Fp"@, f),
            None => Seq::empty(),
        });
        assert(result@ =~= cl_head_spec(self@, *cfg, env@));
        result
    }

    fn push_flags_rest(&self, out: &mut String, env: &MsBuildEnvironment)
        ensures
            final(out)@ == old(out)@ + cl_rest_spec(self@, env@),
    {
        let ghost before = out@;
        let pdb: &str = match &self.program_data_base_file_name {
            Some(p) => p.as_str(),
            None => "$(IntDir)\\vc90.pdb",
        };
        proof {
            reveal_strlit("$(IntDir)\\vc90.pdb");
            reveal_strlit("$(IntDir)\\$(TargetName).pch");
        }
        assert(pdb@ == pdb_spec(self@));
        push_path_flag(out, env, "/Fd", pdb);
        push_char(out, ' ');
        let g3 = self.group3();
        push_str(out, g3.as_str());
        self.push_tail(out);
        assert(out@ =~= before + cl_rest_spec(self@, env@));
    }

    fn flags_text(&self, cfg: &Configuration, env: &MsBuildEnvironment, with_obj: bool) -> (r: String)
        requires
            cl_cfg_ok(*cfg),
        ensures
            r@ == if with_obj {
                cl_flags_fo_spec(self@, *cfg, env@)
            } else {
                cl_flags_spec(self@, *cfg, env@)
            },
    {
        let mut result = self.flags_head(cfg, env);
        let ghost head = result@;
        if with_obj {
            self.push_obj_flag(&mut result, env);
        }
        let ghost mid = result@;
        self.push_flags_rest(&mut result, env);
        let r = trim_start_str(result.as_str());
        proof {
            lemma_flags_parts(self@, *cfg, env@);
            if with_obj {
                assert(result@ == cl_head_spec(self@, *cfg, env@) + obj_flag_spec(self@, env@) + cl_rest_spec(self@, env@));
            } else {
                assert(result@ =~= cl_head_spec(self@, *cfg, env@) + cl_rest_spec(self@, env@));
            }
        }
        r
    }
}


/// How a file is compiled, by its extension: `.c` as C, `.cpp` as C++;
/// other files are not compiled.
pub open spec fn compile_as_of(path: Seq<char>) -> Option<CompileAs> {
    match extension_spec(path) {
        Some(e) => if e == "c"@ {
            Some(CompileAs::_1)
        } else if e == "cpp"@ {
            Some(CompileAs::_2)
        } else {
            None
        },
        None => None,
    }
}

/// Index of the first configuration of `cs` named `name` that has compiler
/// settings.
pub open spec fn first_config(cs: Seq<FileConfiguration>, name: Seq<char>) -> Option<int>
    decreases cs.len(),
{
    if cs.len() == 0 {
        None
    } else if cs[0].name@ == name && cs[0].tool is Some {
        Some(0)
    } else {
        match first_config(cs.skip(1), name) {
            Some(i) => Some(i + 1),
            None => None,
        }
    }
}

pub proof fn lemma_first_config(cs: Seq<FileConfiguration>, name: Seq<char>)
    ensures
        first_config(cs, name) matches Some(i) ==> 0 <= i < cs.len() && cs[i].name@ == name
            && cs[i].tool is Some,
        first_config(cs, name) is None ==> forall|k: int|
            0 <= k < cs.len() ==> !(cs[k].name@ == name && #[trigger] cs[k].tool is Some),
        first_config(cs, name) matches Some(i) ==> forall|k: int|
            0 <= k < i ==> !(cs[k].name@ == name && #[trigger] cs[k].tool is Some),
    decreases cs.len(),
{
    if cs.len() > 0 {
        lemma_first_config(cs.skip(1), name);
        assert forall|k: int| 1 <= k < cs.len() implies cs.skip(1)[k - 1] == cs[k] by {}
    }
}

/// A compile entry: the settings of a file and its path.
pub type Entry = (CompilerToolView, Seq<char>);

/// The entry of a file itself (not of the files it holds): none for a file
/// that is not compiled or is excluded from the build; else the settings of
/// its first configuration named `cfg` (empty without one), compiled as its
/// extension says.
pub open spec fn own_entry(f: File, cfg: Seq<char>) -> Seq<Entry> {
    match compile_as_of(f.relative_path@) {
        Some(ca) => match first_config(f.file_configurations@, cfg) {
            Some(i) => if f.file_configurations@[i].excluded_from_build == Some(true) {
                Seq::empty()
            } else {
                seq![
                    (
                        CompilerToolView {
                            compile_as: Some(ca),
                            ..f.file_configurations@[i].tool->0@
                        },
                        f.relative_path@,
                    ),
                ]
            },
            None => seq![(CompilerToolView { compile_as: Some(ca), ..empty_tool_view() }, f.relative_path@)],
        },
        None => Seq::empty(),
    }
}

/// Entries of a file: those of the files it holds, then its own.
pub open spec fn file_entries(f: File, cfg: Seq<char>) -> Seq<Entry>
    decreases f, 0nat,
{
    files_entries(f.files@, cfg) + own_entry(f, cfg)
}

pub open spec fn files_entries(fs: Seq<File>, cfg: Seq<char>) -> Seq<Entry>
    decreases fs, 1nat,
{
    if fs.len() == 0 {
        Seq::empty()
    } else {
        files_entries(fs.drop_last(), cfg) + file_entries(fs.last(), cfg)
    }
}

/// Entries of a filter: those of its filters, then of its files.
pub open spec fn filter_entries(f: Filter, cfg: Seq<char>) -> Seq<Entry>
    decreases f, 0nat,
{
    filters_entries(f.filters@, cfg) + files_entries(f.files@, cfg)
}

pub open spec fn filters_entries(fs: Seq<Filter>, cfg: Seq<char>) -> Seq<Entry>
    decreases fs, 1nat,
{
    if fs.len() == 0 {
        Seq::empty()
    } else {
        filters_entries(fs.drop_last(), cfg) + filter_entries(fs.last(), cfg)
    }
}

/// All compile entries of a project, in the order of the project file.
pub open spec fn project_entries(files: Files, cfg: Seq<char>) -> Seq<Entry> {
    filters_entries(files.filters@, cfg) + files_entries(files.files@, cfg)
}

/// Index of the group with settings `t`.
pub open spec fn group_index(g: Seq<(CompilerToolView, Seq<Seq<char>>)>, t: CompilerToolView) -> Option<int>
    decreases g.len(),
{
    if g.len() == 0 {
        None
    } else if g.last().0 == t {
        Some(g.len() - 1)
    } else {
        group_index(g.drop_last(), t)
    }
}

/// `g` with the entry `e` added: its path joins the group of its settings,
/// or starts a new group at the end.
pub open spec fn add_to_groups(g: Seq<(CompilerToolView, Seq<Seq<char>>)>, e: Entry) -> Seq<
    (CompilerToolView, Seq<Seq<char>>),
> {
    match group_index(g, e.0) {
        Some(i) => g.update(i, (g[i].0, g[i].1.push(e.1))),
        None => g.push((e.0, seq![e.1])),
    }
}

/// The entries `es` added one by one to the groups `g`.
pub open spec fn group_into(g: Seq<(CompilerToolView, Seq<Seq<char>>)>, es: Seq<Entry>) -> Seq<
    (CompilerToolView, Seq<Seq<char>>),
>
    decreases es.len(),
{
    if es.len() == 0 {
        g
    } else {
        add_to_groups(group_into(g, es.drop_last()), es.last())
    }
}

pub proof fn lemma_group_into_append(g: Seq<(CompilerToolView, Seq<Seq<char>>)>, a: Seq<Entry>, b: Seq<Entry>)
    ensures
        group_into(g, a + b) == group_into(group_into(g, a), b),
    decreases b.len(),
{
    if b.len() == 0 {
        assert(a + b =~= a);
    } else {
        assert((a + b).drop_last() =~= a + b.drop_last());
        lemma_group_into_append(g, a, b.drop_last());
    }
}

pub proof fn lemma_group_index(g: Seq<(CompilerToolView, Seq<Seq<char>>)>, t: CompilerToolView)
    ensures
        group_index(g, t) matches Some(i) ==> 0 <= i < g.len() && g[i].0 == t,
        group_index(g, t) is None ==> forall|k: int| 0 <= k < g.len() ==> #[trigger] g[k].0 != t,
    decreases g.len(),
{
    if g.len() > 0 {
        lemma_group_index(g.drop_last(), t);
        if group_index(g, t) is None {
            assert forall|k: int| 0 <= k < g.len() implies #[trigger] g[k].0 != t by {
                if k < g.len() - 1 {
                    assert(g.drop_last()[k] == g[k]);
                }
            }
        }
    }
}

pub open spec fn groups_view(keys: Seq<CompilerTool>, paths: Seq<Vec<String>>) -> Seq<
    (CompilerToolView, Seq<Seq<char>>),
> {
    Seq::new(keys.len(), |i: int| (keys[i]@, seq_of_strings(paths[i]@)))
}

/// Grouping of compile entries, kept as settings and paths side by side.
pub struct ToolGroups {
    pub keys: Vec<CompilerTool>,
    pub paths: Vec<Vec<String>>,
}

impl ToolGroups {
    pub open spec fn wf(&self) -> bool {
        self.keys.len() == self.paths.len()
    }

    pub open spec fn view_groups(&self) -> Seq<(CompilerToolView, Seq<Seq<char>>)> {
        groups_view(self.keys@, self.paths@)
    }

    fn add(&mut self, tool: CompilerTool, path: String)
        requires
            old(self).wf(),
        ensures
            final(self).wf(),
            final(self).view_groups() == add_to_groups(old(self).view_groups(), (tool@, path@)),
    {
        let ghost g = self.view_groups();
        let mut i: usize = self.keys.len();
        assert(g.take(i as int) =~= g);
        while i > 0
            invariant
                i <= self.keys.len(),
                self.wf(),
                g == self.view_groups(),
                g == old(self).view_groups(),
                group_index(g, tool@) == group_index(g.take(i as int), tool@),
            decreases i,
        {
            assert(g.take(i as int).drop_last() =~= g.take(i - 1));
            assert(g.take(i as int).last() == g[i - 1]);
            assert(g[i - 1].0 == self.keys@[i - 1]@);
            if self.keys[i - 1].same_settings(&tool) {
                assert(group_index(g, tool@) == Some((i - 1) as int));
                let ghost old_paths = self.paths@;
                let mut ps = self.paths.remove(i - 1);
                let ghost ps0 = seq_of_strings(ps@);
                ps.push(path);
                assert(seq_of_strings(ps@) =~= ps0.push(path@));
                self.paths.insert(i - 1, ps);
                assert(self.paths@ =~= old_paths.update(i - 1, ps));
                assert(self.view_groups() =~= add_to_groups(g, (tool@, path@)));
                return;
            }
            i -= 1;
        }
        assert(g.take(0) =~= Seq::<(CompilerToolView, Seq<Seq<char>>)>::empty());
        assert(group_index(g, tool@) is None);
        let mut ps: Vec<String> = Vec::new();
        ps.push(path);
        assert(seq_of_strings(ps@) =~= seq![path@]);
        self.keys.push(tool);
        self.paths.push(ps);
        assert(self.view_groups() =~= add_to_groups(g, (tool@, path@)));
    }
}

impl CompilerTool {
    fn parse_file(result: &mut ToolGroups, file: &File, configuration_platform: &str)
        requires
            old(result).wf(),
        ensures
            final(result).wf(),
            final(result).view_groups() == group_into(
                old(result).view_groups(),
                file_entries(*file, configuration_platform@),
            ),
        decreases file,
    {
        let ghost g0 = result.view_groups();
        let mut i: usize = 0;
        assert(file.files@.take(0) =~= Seq::<File>::empty());
        while i < file.files.len()
            invariant
                i <= file.files.len(),
                result.wf(),
                result.view_groups() == group_into(
                    g0,
                    files_entries(file.files@.take(i as int), configuration_platform@),
                ),
            decreases file.files.len() - i,
        {
            let ghost before = result.view_groups();
            assert(decreases_to!(*file => file.files));
            Self::parse_file(result, &file.files[i], configuration_platform);
            proof {
                let fs = file.files@.take(i + 1);
                assert(fs.drop_last() =~= file.files@.take(i as int));
                lemma_group_into_append(
                    g0,
                    files_entries(file.files@.take(i as int), configuration_platform@),
                    file_entries(file.files@[i as int], configuration_platform@),
                );
            }
            i += 1;
        }
        assert(file.files@.take(file.files.len() as int) =~= file.files@);
        let ghost g1 = result.view_groups();
        proof {
            lemma_group_into_append(
                g0,
                files_entries(file.files@, configuration_platform@),
                own_entry(*file, configuration_platform@),
            );
        }
        assert(g0 == old(result).view_groups());
        assert(g1 == group_into(g0, files_entries(file.files@, configuration_platform@)));
        assert(file_entries(*file, configuration_platform@) == files_entries(file.files@, configuration_platform@) + own_entry(*file, configuration_platform@));
        let compile_as = match extension(file.relative_path.as_str()) {
            Some(e) => if str_eq(e.as_str(), "c") {
                CompileAs::_1
            } else if str_eq(e.as_str(), "cpp") {
                CompileAs::_2
            } else {
                assert(own_entry(*file, configuration_platform@) =~= Seq::<Entry>::empty());
                return;
            },
            None => {
                assert(own_entry(*file, configuration_platform@) =~= Seq::<Entry>::empty());
                return;
            },
        };
        proof {
            reveal_strlit("c");
            reveal_strlit("cpp");
        }
        assert(compile_as_of(file.relative_path@) == Some(compile_as));
        let cs = &file.file_configurations;
        proof {
            lemma_first_config(cs@, configuration_platform@);
        }
        let mut k: usize = 0;
        while k < cs.len() && !(str_eq(cs[k].name.as_str(), configuration_platform) && cs[k].tool.is_some())
            invariant
                k <= cs.len(),
                cs == &file.file_configurations,
                forall|j: int| 0 <= j < k ==> !(cs@[j].name@ == configuration_platform@ && #[trigger] cs@[j].tool is Some),
            decreases cs.len() - k,
        {
            k += 1;
        }
        proof {
            lemma_first_config(cs@, configuration_platform@);
        }
        let mut tool = if k < cs.len() {
            assert(first_config(cs@, configuration_platform@) == Some(k as int));
            if cs[k].excluded_from_build == Some(true) {
                assert(own_entry(*file, configuration_platform@) =~= Seq::<Entry>::empty());
                return;
            }
            match &cs[k].tool {
                Some(t) => t.clone_tool(),
                None => CompilerTool::empty(),
            }
        } else {
            assert(first_config(cs@, configuration_platform@) is None);
            CompilerTool::empty()
        };
        tool.compile_as = Some(compile_as);
        let ghost e = (tool@, file.relative_path@);
        assert(own_entry(*file, configuration_platform@) =~= seq![e]);
        result.add(tool, file.relative_path.clone());
        assert(group_into(g1, seq![e]) == add_to_groups(g1, e)) by {
            assert(seq![e].drop_last() =~= Seq::<Entry>::empty());
            assert(group_into(g1, Seq::<Entry>::empty()) == g1);
            assert(seq![e].last() == e);
        }
        assert(result.view_groups() == group_into(g1, own_entry(*file, configuration_platform@)));
    }

    fn parse_filter(result: &mut ToolGroups, filter: &Filter, configuration_platform: &str)
        requires
            old(result).wf(),
        ensures
            final(result).wf(),
            final(result).view_groups() == group_into(
                old(result).view_groups(),
                filter_entries(*filter, configuration_platform@),
            ),
        decreases filter,
    {
        let ghost g0 = result.view_groups();
        let mut i: usize = 0;
        assert(filter.filters@.take(0) =~= Seq::<Filter>::empty());
        while i < filter.filters.len()
            invariant
                i <= filter.filters.len(),
                result.wf(),
                result.view_groups() == group_into(
                    g0,
                    filters_entries(filter.filters@.take(i as int), configuration_platform@),
                ),
            decreases filter.filters.len() - i,
        {
            assert(decreases_to!(*filter => filter.filters));
            Self::parse_filter(result, &filter.filters[i], configuration_platform);
            proof {
                assert(filter.filters@.take(i + 1).drop_last() =~= filter.filters@.take(i as int));
                lemma_group_into_append(
                    g0,
                    filters_entries(filter.filters@.take(i as int), configuration_platform@),
                    filter_entries(filter.filters@[i as int], configuration_platform@),
                );
            }
            i += 1;
        }
        assert(filter.filters@.take(filter.filters.len() as int) =~= filter.filters@);
        let ghost g1 = result.view_groups();
        let mut j: usize = 0;
        assert(filter.files@.take(0) =~= Seq::<File>::empty());
        while j < filter.files.len()
            invariant
                j <= filter.files.len(),
                result.wf(),
                result.view_groups() == group_into(
                    g1,
                    files_entries(filter.files@.take(j as int), configuration_platform@),
                ),
            decreases filter.files.len() - j,
        {
            Self::parse_file(result, &filter.files[j], configuration_platform);
            proof {
                assert(filter.files@.take(j + 1).drop_last() =~= filter.files@.take(j as int));
                lemma_group_into_append(
                    g1,
                    files_entries(filter.files@.take(j as int), configuration_platform@),
                    file_entries(filter.files@[j as int], configuration_platform@),
                );
            }
            j += 1;
        }
        assert(filter.files@.take(filter.files.len() as int) =~= filter.files@);
        proof {
            lemma_group_into_append(
                g0,
                filters_entries(filter.filters@, configuration_platform@),
                files_entries(filter.files@, configuration_platform@),
            );
        }
    }

    /// The source files of the configuration `configuration_platform`,
    /// grouped by their settings (see [`project_entries`]); groups are in the
    /// order of their first file.
    pub fn parse_files(files: &Files, configuration_platform: &str) -> (r: ToolGroups)
        ensures
            r.wf(),
            r.view_groups() == group_into(Seq::empty(), project_entries(*files, configuration_platform@)),
    {
        let mut result = ToolGroups { keys: Vec::new(), paths: Vec::new() };
        assert(result.view_groups() =~= Seq::<(CompilerToolView, Seq<Seq<char>>)>::empty());
        let ghost g0 = result.view_groups();
        let mut i: usize = 0;
        assert(files.filters@.take(0) =~= Seq::<Filter>::empty());
        while i < files.filters.len()
            invariant
                i <= files.filters.len(),
                result.wf(),
                result.view_groups() == group_into(
                    g0,
                    filters_entries(files.filters@.take(i as int), configuration_platform@),
                ),
            decreases files.filters.len() - i,
        {
            Self::parse_filter(&mut result, &files.filters[i], configuration_platform);
            proof {
                assert(files.filters@.take(i + 1).drop_last() =~= files.filters@.take(i as int));
                lemma_group_into_append(
                    g0,
                    filters_entries(files.filters@.take(i as int), configuration_platform@),
                    filter_entries(files.filters@[i as int], configuration_platform@),
                );
            }
            i += 1;
        }
        assert(files.filters@.take(files.filters.len() as int) =~= files.filters@);
        let ghost g1 = result.view_groups();
        let mut j: usize = 0;
        assert(files.files@.take(0) =~= Seq::<File>::empty());
        while j < files.files.len()
            invariant
                j <= files.files.len(),
                result.wf(),
                result.view_groups() == group_into(
                    g1,
                    files_entries(files.files@.take(j as int), configuration_platform@),
                ),
            decreases files.files.len() - j,
        {
            Self::parse_file(&mut result, &files.files[j], configuration_platform);
            proof {
                assert(files.files@.take(j + 1).drop_last() =~= files.files@.take(j as int));
                lemma_group_into_append(
                    g1,
                    files_entries(files.files@.take(j as int), configuration_platform@),
                    file_entries(files.files@[j as int], configuration_platform@),
                );
            }
            j += 1;
        }
        assert(files.files@.take(files.files.len() as int) =~= files.files@);
        proof {
            lemma_group_into_append(
                g0,
                filters_entries(files.filters@, configuration_platform@),
                files_entries(files.files@, configuration_platform@),
            );
        }
        result
    }
}


/// Settings laid over those of the configuration.
pub open spec fn merged_groups(base: CompilerToolView, g: Seq<(CompilerToolView, Seq<Seq<char>>)>) -> Seq<
    (CompilerToolView, Seq<Seq<char>>),
> {
    g.map_values(|e: (CompilerToolView, Seq<Seq<char>>)| (merge_spec(base, e.0), e.1))
}

/// `g` with `e` put in: its files join the group with the same settings
/// (after the files already there), or it comes last.
pub open spec fn put_merged(g: Seq<(CompilerToolView, Seq<Seq<char>>)>, e: (CompilerToolView, Seq<Seq<char>>)) -> Seq<
    (CompilerToolView, Seq<Seq<char>>),
> {
    match group_index(g, e.0) {
        Some(i) => g.update(i, (g[i].0, g[i].1 + e.1)),
        None => g.push(e),
    }
}

/// Groups whose settings became equal once merged become one group, with
/// the files of both in order.
pub open spec fn collect_merged(es: Seq<(CompilerToolView, Seq<Seq<char>>)>) -> Seq<
    (CompilerToolView, Seq<Seq<char>>),
>
    decreases es.len(),
{
    if es.len() == 0 {
        Seq::empty()
    } else {
        put_merged(collect_merged(es.drop_last()), es.last())
    }
}

/// Order of the compile steps: those that create a precompiled header
/// first, then those that use one, then the rest.
pub open spec fn pch_rank(u: Option<UsePrecompiledHeader>) -> int {
    match u {
        Some(UsePrecompiledHeader::_1) => 4,
        Some(UsePrecompiledHeader::_2) => 3,
        Some(UsePrecompiledHeader::_3) => 2,
        Some(UsePrecompiledHeader::_0) => 1,
        None => 0,
    }
}

pub open spec fn with_rank(g: Seq<(CompilerToolView, Seq<Seq<char>>)>, r: int) -> Seq<
    (CompilerToolView, Seq<Seq<char>>),
> {
    g.filter(|e: (CompilerToolView, Seq<Seq<char>>)| pch_rank(e.0.use_precompiled_header) == r)
}

/// A stable sort of the groups by [`pch_rank`], highest first.
pub open spec fn sorted_groups(g: Seq<(CompilerToolView, Seq<Seq<char>>)>) -> Seq<
    (CompilerToolView, Seq<Seq<char>>),
> {
    with_rank(g, 4) + with_rank(g, 3) + with_rank(g, 2) + with_rank(g, 1) + with_rank(g, 0)
}

/// `$(InputName)` of a step: the stem of its only source, or a poison
/// value when it has several.
pub open spec fn input_name_spec(files: Seq<Seq<char>>) -> Seq<char> {
    if files.len() == 1 {
        match file_stem_spec(files[0]) {
            Some(s) => s,
            None => files[0],
        }
    } else {
        "<poison>"@
    }
}

/// The object directory (or file) of a step: `ObjectFile`, else
/// `$(IntDir)`, expanded, with a `\` added to a directory.
pub open spec fn obj_output_spec(t: CompilerToolView, env: EnvView) -> Seq<char> {
    let o = env.expand_spec(
        match t.object_file {
            Some(x) => x,
            None => "$(IntDir)"@,
        },
    );
    if extension_spec(o) is None && !(o.len() > 0 && o.last() == '\\') {
        o.push('\\')
    } else {
        o
    }
}

/// The compile step of a group of sources sharing the settings `t`.
pub open spec fn cl_group_spec(t: CompilerToolView, files: Seq<Seq<char>>, cfg: Configuration, env: EnvView) -> SpecClGroup {
    let genv = EnvView { input_name: input_name_spec(files), ..env };
    let out = obj_output_spec(t, genv);
    let pch = genv.expand_spec(pch_file_spec(t)->0);
    SpecClGroup {
        flags: SpecFlags {
            output_file: out,
            import_library: None,
            flags: "@$(RspFile) /Fo"@ + seq!['"'] + out + seq!['"'],
            rsp_flags: cl_flags_spec(t, cfg, genv),
            files: files,
        },
        pch_output: if t.use_precompiled_header == Some(UsePrecompiledHeader::_1) {
            Some(pch)
        } else {
            None
        },
        pch_input: if t.use_precompiled_header == Some(UsePrecompiledHeader::_2) {
            Some(pch)
        } else {
            None
        },
        fd_path: if pdb_spec(t).len() > 0 {
            Some(genv.expand_spec(pdb_spec(t)))
        } else {
            None
        },
        include_dirs: nonempty(include_dirs_spec(t, cfg)).map_values(
            |d: Seq<char>| trim_char(trim(genv.expand_spec(trim(d))), '"'),
        ),
        defines: nonempty(defines_spec(t, cfg)),
        header_deps: Seq::empty(),
    }
}

/// The compile steps of a configuration: its sources grouped by settings,
/// each group's settings laid over `base`, sorted by [`pch_rank`].
pub open spec fn cl_groups_spec(base: CompilerToolView, files: Files, cfg: Configuration, env: EnvView) -> Seq<SpecClGroup> {
    sorted_groups(
        collect_merged(merged_groups(base, group_into(Seq::empty(), project_entries(files, cfg.name@)))),
    ).map_values(group_step(cfg, env))
}

pub open spec fn cl_groups_view(v: Seq<ClGroup>) -> Seq<SpecClGroup> {
    v.map_values(|g: ClGroup| g@)
}

fn keep_nonempty(xs: &Vec<String>) -> (r: Vec<String>)
    ensures
        seq_of_strings(r@) == nonempty(seq_of_strings(xs@)),
{
    let ghost v = seq_of_strings(xs@);
    let mut r: Vec<String> = Vec::new();
    let mut i: usize = 0;
    while i < xs.len()
        invariant
            i <= xs.len(),
            v == seq_of_strings(xs@),
            seq_of_strings(r@) == nonempty(v.take(i as int)),
        decreases xs.len() - i,
    {
        proof {
            lemma_nonempty_step(v, i as int);
        }
        assert(v[i as int] == xs@[i as int]@);
        if xs[i].as_str().unicode_len() > 0 {
            let ghost before = seq_of_strings(r@);
            r.push(xs[i].clone());
            assert(seq_of_strings(r@) =~= before.push(xs@[i as int]@));
        }
        i += 1;
    }
    assert(v.take(xs.len() as int) =~= v);
    r
}


/// Each include directory as the flags hold it: trimmed, expanded, without
/// quotes.
fn clean_include_dirs(incs: &Vec<String>, genv: &MsBuildEnvironment) -> (r: Vec<String>)
    ensures
        seq_of_strings(r@) == seq_of_strings(incs@).map_values(
            |d: Seq<char>| trim_char(trim(genv@.expand_spec(trim(d))), '"'),
        ),
{
    let ghost iv = seq_of_strings(incs@);
    let ghost f = |d: Seq<char>| trim_char(trim(genv@.expand_spec(trim(d))), '"');
    let mut out: Vec<String> = Vec::new();
    let mut i: usize = 0;
    while i < incs.len()
        invariant
            i <= incs.len(),
            iv == seq_of_strings(incs@),
            f == (|d: Seq<char>| trim_char(trim(genv@.expand_spec(trim(d))), '"')),
            seq_of_strings(out@) == iv.take(i as int).map_values(f),
        decreases incs.len() - i,
    {
        let t = trim_str(incs[i].as_str());
        let e = genv.expand(t.as_str());
        let c = trim_quotes(e.as_str());
        assert(iv[i as int] == incs@[i as int]@);
        assert(c@ == f(iv[i as int]));
        let ghost before = seq_of_strings(out@);
        out.push(c);
        assert(seq_of_strings(out@) =~= before.push(c@));
        assert(iv.take(i + 1).map_values(f) =~= iv.take(i as int).map_values(f).push(f(iv[i as int])));
        i += 1;
    }
    assert(iv.take(incs.len() as int) =~= iv);
    out
}

impl CompilerTool {
    fn all_lists(&self, cfg: &Configuration) -> (r: (Vec<String>, Vec<String>))
        requires
            cl_cfg_ok(*cfg),
        ensures
            seq_of_strings(r.0@) == include_dirs_spec(self@, *cfg),
            seq_of_strings(r.1@) == defines_spec(self@, *cfg),
    {
        let (incs, mut defs) = lists_of_sheets(self, cfg);
        if cfg.configuration_type == ConfigurationType::_2 {
            defs.push("_WINDLL".to_owned());
        }
        match cfg.character_set {
            Some(CharacterSet::_1) => {
                defs.push("_UNICODE".to_owned());
                defs.push("UNICODE".to_owned());
            },
            Some(CharacterSet::_2) => {
                defs.push("_MBCS".to_owned());
            },
            _ => {},
        }
        assert(seq_of_strings(defs@) =~= defines_spec(self@, *cfg));
        (incs, defs)
    }

    fn obj_output(&self, genv: &MsBuildEnvironment) -> (r: String)
        ensures
            r@ == obj_output_spec(self@, genv@),
    {
        proof {
            reveal_strlit("$(IntDir)");
        }
        let pattern: &str = match &self.object_file {
            Some(o) => o.as_str(),
            None => "$(IntDir)",
        };
        let mut output_file = genv.expand(pattern);
        let v = crate::text::chars_of(output_file.as_str());
        let has_ext = extension(output_file.as_str()).is_some();
        if !has_ext && !(v.len() > 0 && v[v.len() - 1] == '\\') {
            push_char(&mut output_file, '\\');
        }
        output_file
    }

    fn pch_path(&self, genv: &MsBuildEnvironment) -> (r: Option<String>)
        ensures
            pch_file_spec(self@) is Some ==> opt_view(r) == Some(genv@.expand_spec(pch_file_spec(self@)->0)),
    {
        proof {
            reveal_strlit("$(IntDir)\\$(TargetName).pch");
        }
        match &self.precompiled_header_file {
            Some(f) => Some(genv.expand(f.as_str())),
            None => match self.use_precompiled_header {
                Some(u) => if u != UsePrecompiledHeader::_0 {
                    Some(genv.expand("$(IntDir)\\$(TargetName).pch"))
                } else {
                    None
                },
                None => None,
            },
        }
    }

    fn pdb_path(&self, genv: &MsBuildEnvironment) -> (r: Option<String>)
        ensures
            opt_view(r) == if pdb_spec(self@).len() > 0 {
                Some(genv@.expand_spec(pdb_spec(self@)))
            } else {
                None
            },
    {
        proof {
            reveal_strlit("$(IntDir)\\vc90.pdb");
        }
        let pdb: &str = match &self.program_data_base_file_name {
            Some(p) => p.as_str(),
            None => "$(IntDir)\\vc90.pdb",
        };
        if pdb.unicode_len() > 0 {
            Some(genv.expand(pdb))
        } else {
            None
        }
    }

    /// The compile step of `files` with these settings.
    fn cl_group(&self, files: Vec<String>, cfg: &Configuration, env: &MsBuildEnvironment) -> (r: ClGroup)
        requires
            cl_cfg_ok(*cfg),
        ensures
            r@ == cl_group_spec(self@, seq_of_strings(files@), *cfg, env@),
    {
        let ghost fs = seq_of_strings(files@);
        let input_name: String = if files.len() == 1 {
            assert(fs[0] == files@[0]@);
            match file_stem(files[0].as_str()) {
                Some(stem) => stem,
                None => files[0].clone(),
            }
        } else {
            proof {
                reveal_strlit("<poison>");
            }
            "<poison>".to_owned()
        };
        let genv = env.with_input_name(input_name.as_str());
        let ghost gv = genv@;
        assert(gv == (EnvView { input_name: input_name_spec(fs), ..env@ }));
        let output_file = self.obj_output(&genv);
        let rsp_flags = self.to_flags_impl(cfg, &genv);
        let mut flags = "@$(RspFile) /Fo".to_owned();
        push_char(&mut flags, '"');
        push_str(&mut flags, output_file.as_str());
        push_char(&mut flags, '"');
        proof {
            reveal_strlit("@$(RspFile) /Fo");
        }
        assert(flags@ =~= "@$(RspFile) /Fo"@ + seq!['"'] + output_file@ + seq!['"']);
        let pch = self.pch_path(&genv);
        let pch_output = if self.use_precompiled_header == Some(UsePrecompiledHeader::_1) {
            clone_opt_string(&pch)
        } else {
            None
        };
        let pch_input = if self.use_precompiled_header == Some(UsePrecompiledHeader::_2) {
            pch
        } else {
            None
        };
        let fd_path = self.pdb_path(&genv);
        let (incs, defs) = self.all_lists(cfg);
        let defines = keep_nonempty(&defs);
        let incs = keep_nonempty(&incs);
        let include_dirs = clean_include_dirs(&incs, &genv);
        let header_deps: Vec<String> = Vec::new();
        assert(seq_of_strings(header_deps@) =~= Seq::<Seq<char>>::empty());
        ClGroup {
            flags: Flags {
                output_file,
                import_library: None,
                flags,
                rsp_flags,
                files,
            },
            pch_output,
            pch_input,
            fd_path,
            include_dirs,
            defines,
            header_deps,
        }
    }
}


impl ToolGroups {
    fn put(&mut self, tool: CompilerTool, paths: Vec<String>)
        requires
            old(self).wf(),
        ensures
            final(self).wf(),
            final(self).view_groups() == put_merged(old(self).view_groups(), (tool@, seq_of_strings(paths@))),
    {
        let ghost g = self.view_groups();
        let ghost e = (tool@, seq_of_strings(paths@));
        let mut i: usize = self.keys.len();
        assert(g.take(i as int) =~= g);
        while i > 0
            invariant
                i <= self.keys.len(),
                self.wf(),
                g == self.view_groups(),
                g == old(self).view_groups(),
                e == (tool@, seq_of_strings(paths@)),
                group_index(g, tool@) == group_index(g.take(i as int), tool@),
            decreases i,
        {
            assert(g.take(i as int).drop_last() =~= g.take(i - 1));
            assert(g.take(i as int).last() == g[i - 1]);
            assert(g[i - 1].0 == self.keys@[i - 1]@);
            if self.keys[i - 1].same_settings(&tool) {
                assert(group_index(g, tool@) == Some((i - 1) as int));
                let ghost old_paths = self.paths@;
                let ghost old_keys = self.keys@;
                assert(self.keys@[i - 1]@ == tool@);
                assert(g == groups_view(old_keys, old_paths));
                let mut joined = self.paths.remove(i - 1);
                let ghost before = seq_of_strings(joined@);
                assert(before == g[i - 1].1);
                extend_strings(&mut joined, &paths);
                let ghost jv = joined@;
                self.paths.insert(i - 1, joined);
                assert(self.paths@ =~= old_paths.update(i - 1, self.paths@[i - 1]));
                assert(seq_of_strings(self.paths@[i - 1]@) == g[i - 1].1 + e.1);
                assert forall|k: int| 0 <= k < g.len() implies #[trigger] self.view_groups()[k] == put_merged(g, e)[k] by {
                    assert(g[k] == (old_keys[k]@, seq_of_strings(old_paths[k]@)));
                    if k != i - 1 {
                        assert(self.paths@[k] == old_paths[k]);
                    }
                }
                assert(self.view_groups() =~= put_merged(g, e));
                return;
            }
            i -= 1;
        }
        assert(g.take(0) =~= Seq::<(CompilerToolView, Seq<Seq<char>>)>::empty());
        self.keys.push(tool);
        self.paths.push(paths);
        assert(self.view_groups() =~= put_merged(g, e));
    }
}

fn rank_of(u: Option<UsePrecompiledHeader>) -> (r: u8)
    ensures
        r as int == pch_rank(u),
{
    match u {
        Some(UsePrecompiledHeader::_1) => 4,
        Some(UsePrecompiledHeader::_2) => 3,
        Some(UsePrecompiledHeader::_3) => 2,
        Some(UsePrecompiledHeader::_0) => 1,
        None => 0,
    }
}

pub open spec fn group_step(cfg: Configuration, env: EnvView) -> spec_fn((CompilerToolView, Seq<Seq<char>>)) -> SpecClGroup {
    |g: (CompilerToolView, Seq<Seq<char>>)| cl_group_spec(g.0, g.1, cfg, env)
}

fn push_rank(out: &mut Vec<ClGroup>, groups: &ToolGroups, rank: u8, cfg: &Configuration, env: &MsBuildEnvironment)
    requires
        groups.wf(),
        cl_cfg_ok(*cfg),
    ensures
        cl_groups_view(final(out)@) == cl_groups_view(old(out)@) + with_rank(groups.view_groups(), rank as int).map_values(
            group_step(*cfg, env@),
        ),
{
    let ghost g = groups.view_groups();
    let ghost base = cl_groups_view(out@);
    let ghost p = |e: (CompilerToolView, Seq<Seq<char>>)| pch_rank(e.0.use_precompiled_header) == rank as int;
    let mut j: usize = 0;
    assert(g.take(0).filter(p) =~= Seq::<(CompilerToolView, Seq<Seq<char>>)>::empty()) by {
        reveal(Seq::filter);
    }
    while j < groups.keys.len()
        invariant
            j <= groups.keys.len(),
            groups.wf(),
            cl_cfg_ok(*cfg),
            g == groups.view_groups(),
            p == (|e: (CompilerToolView, Seq<Seq<char>>)| pch_rank(e.0.use_precompiled_header) == rank as int),
            cl_groups_view(out@) == base + g.take(j as int).filter(p).map_values(group_step(*cfg, env@)),
        decreases groups.keys.len() - j,
    {
        proof {
            reveal(Seq::filter);
            assert(g.take(j + 1).drop_last() =~= g.take(j as int));
            assert(g.take(j + 1).last() == g[j as int]);
        }
        assert(g[j as int].0 == groups.keys@[j as int]@);
        if rank_of(groups.keys[j].use_precompiled_header) == rank {
            let files = clone_strings(&groups.paths[j]);
            let c = groups.keys[j].cl_group(files, cfg, env);
            let ghost before = cl_groups_view(out@);
            out.push(c);
            assert(cl_groups_view(out@) =~= before.push(c@));
            assert(g.take(j + 1).filter(p) == g.take(j as int).filter(p).push(g[j as int]));
            assert(g.take(j + 1).filter(p).map_values(group_step(*cfg, env@)) =~= g.take(j as int).filter(p).map_values(group_step(*cfg, env@)).push(group_step(*cfg, env@)(g[j as int])));
        } else {
            assert(g.take(j + 1).filter(p) == g.take(j as int).filter(p));
        }
        j += 1;
    }
    assert(g.take(groups.keys.len() as int) =~= g);
}

impl CompilerTool {
    /// The compile steps of `cfg` (see [`cl_groups_spec`]); these settings are
    /// the configuration's, under those of each file.
    pub fn to_flags(&self, cfg: &Configuration, vcproject: &VCProject, env: &MsBuildEnvironment) -> (r: Vec<ClGroup>)
        requires
            cl_cfg_ok(*cfg),
        ensures
            cl_groups_view(r@) == cl_groups_spec(self@, vcproject.files, *cfg, env@),
    {
        let groups = Self::parse_files(&vcproject.files, cfg.name.as_str());
        let ghost g = groups.view_groups();
        let ghost mg = merged_groups(self@, g);
        let mut merged = ToolGroups { keys: Vec::new(), paths: Vec::new() };
        assert(merged.view_groups() =~= Seq::<(CompilerToolView, Seq<Seq<char>>)>::empty());
        let mut i: usize = 0;
        assert(mg.take(0) =~= Seq::<(CompilerToolView, Seq<Seq<char>>)>::empty());
        while i < groups.keys.len()
            invariant
                i <= groups.keys.len(),
                groups.wf(),
                merged.wf(),
                g == groups.view_groups(),
                mg == merged_groups(self@, g),
                merged.view_groups() == collect_merged(mg.take(i as int)),
            decreases groups.keys.len() - i,
        {
            let t = self.clone_tool().merge(groups.keys[i].clone_tool());
            let ps = clone_strings(&groups.paths[i]);
            assert(mg[i as int] == (t@, seq_of_strings(ps@)));
            merged.put(t, ps);
            assert(mg.take(i + 1).drop_last() =~= mg.take(i as int));
            assert(mg.take(i + 1).last() == mg[i as int]);
            i += 1;
        }
        assert(mg.take(groups.keys.len() as int) =~= mg);
        let ghost c = merged.view_groups();
        let mut out: Vec<ClGroup> = Vec::new();
        assert(cl_groups_view(out@) =~= Seq::<SpecClGroup>::empty());
        push_rank(&mut out, &merged, 4, cfg, env);
        push_rank(&mut out, &merged, 3, cfg, env);
        push_rank(&mut out, &merged, 2, cfg, env);
        push_rank(&mut out, &merged, 1, cfg, env);
        push_rank(&mut out, &merged, 0, cfg, env);
        let ghost f = group_step(*cfg, env@);
        assert(sorted_groups(c).map_values(f) =~= with_rank(c, 4).map_values(f) + with_rank(c, 3).map_values(f)
            + with_rank(c, 2).map_values(f) + with_rank(c, 1).map_values(f) + with_rank(c, 0).map_values(f));
        assert(cl_groups_spec(self@, vcproject.files, *cfg, env@) == sorted_groups(c).map_values(f));
        out
    }
}

/// Whether the property sheets of a configuration are understood (see
/// [`cl_cfg_ok`]): what [`CompilerTool::to_flags`] needs.
pub fn cl_cfg_ok_check(cfg: &Configuration) -> (r: bool)
    ensures
        r == cl_cfg_ok(*cfg),
{
    match &cfg.inherited_property_sheets {
        None => true,
        Some(sheets) => {
            let ghost s = seq_of_strings(sheets@);
            let mut seen_upgrade = false;
            let mut k: usize = 0;
            while k < sheets.len()
                invariant
                    k <= sheets.len(),
                    s == seq_of_strings(sheets@),
                    opt_list_view(cfg.inherited_property_sheets) == Some(s),
                    forall|j: int| 0 <= j < k ==> upgrade_version(#[trigger] s[j]) != 0 || is_ogg_sheet(s[j]),
                    forall|i: int, j: int| 0 <= i < j < k ==> !(upgrade_version(#[trigger] s[i]) != 0
                        && upgrade_version(#[trigger] s[j]) != 0),
                    seen_upgrade <==> exists|j: int| 0 <= j < k && upgrade_version(#[trigger] s[j]) != 0,
                decreases sheets.len() - k,
            {
                let kind = sheet_kind(&sheets[k]);
                assert(s[k as int] == sheets@[k as int]@);
                if kind == 0 {
                    assert(!(upgrade_version(s[k as int]) != 0 || is_ogg_sheet(s[k as int])));
                    return false;
                }
                if kind != 1 {
                    if seen_upgrade {
                        proof {
                            let j = choose|j: int| 0 <= j < k && upgrade_version(#[trigger] s[j]) != 0;
                            assert(upgrade_version(s[j]) != 0 && upgrade_version(s[k as int]) != 0);
                        }
                        return false;
                    }
                    seen_upgrade = true;
                }
                k += 1;
            }
            true
        },
    }
}


//
// Every compiled source lands in exactly one compile step
//

/// The files of groups, one group after the other.
pub open spec fn group_files(g: Seq<(CompilerToolView, Seq<Seq<char>>)>) -> Seq<Seq<char>>
    decreases g.len(),
{
    if g.len() == 0 {
        Seq::empty()
    } else {
        group_files(g.drop_last()) + g.last().1
    }
}

/// The sources of compile steps, one step after the other.
pub open spec fn step_files(gs: Seq<SpecClGroup>) -> Seq<Seq<char>>
    decreases gs.len(),
{
    if gs.len() == 0 {
        Seq::empty()
    } else {
        step_files(gs.drop_last()) + gs.last().flags.files
    }
}

/// The sources of compile entries, in order.
pub open spec fn entry_paths(es: Seq<Entry>) -> Seq<Seq<char>> {
    es.map_values(|e: Entry| e.1)
}

proof fn lemma_group_files_concat(a: Seq<(CompilerToolView, Seq<Seq<char>>)>, b: Seq<(CompilerToolView, Seq<Seq<char>>)>)
    ensures
        group_files(a + b) == group_files(a) + group_files(b),
    decreases b.len(),
{
    if b.len() == 0 {
        assert(a + b =~= a);
        assert(group_files(a) + group_files(b) =~= group_files(a));
    } else {
        assert((a + b).drop_last() =~= a + b.drop_last());
        assert((a + b).last() == b.last());
        lemma_group_files_concat(a, b.drop_last());
        assert(group_files(a) + group_files(b.drop_last()) + b.last().1 =~= group_files(a) + (group_files(
            b.drop_last(),
        ) + b.last().1));
    }
}

proof fn lemma_group_files_update(g: Seq<(CompilerToolView, Seq<Seq<char>>)>, i: int, extra: Seq<Seq<char>>)
    requires
        0 <= i < g.len(),
    ensures
        group_files(g.update(i, (g[i].0, g[i].1 + extra))).to_multiset() =~= group_files(g).to_multiset().add(
            extra.to_multiset(),
        ),
    decreases g.len(),
{
    broadcast use vstd::seq_lib::lemma_multiset_commutative;
    let u = g.update(i, (g[i].0, g[i].1 + extra));
    if i == g.len() - 1 {
        assert(u.drop_last() =~= g.drop_last());
        assert(group_files(u) =~= group_files(g.drop_last()) + g[i].1 + extra);
        assert((group_files(g.drop_last()) + g[i].1 + extra).to_multiset() =~= (group_files(g.drop_last())
            + g[i].1).to_multiset().add(extra.to_multiset()));
    } else {
        assert(u.drop_last() =~= g.drop_last().update(i, (g[i].0, g[i].1 + extra)));
        assert(g.drop_last()[i] == g[i]);
        lemma_group_files_update(g.drop_last(), i, extra);
        assert(u.last() == g.last());
        assert((group_files(u.drop_last()) + u.last().1).to_multiset() =~= group_files(u.drop_last()).to_multiset().add(
            u.last().1.to_multiset(),
        ));
        assert((group_files(g.drop_last()) + g.last().1).to_multiset() =~= group_files(g.drop_last()).to_multiset().add(
            g.last().1.to_multiset(),
        ));
    }
}

proof fn lemma_group_files_push(g: Seq<(CompilerToolView, Seq<Seq<char>>)>, e: (CompilerToolView, Seq<Seq<char>>))
    ensures
        group_files(g.push(e)).to_multiset() =~= group_files(g).to_multiset().add(e.1.to_multiset()),
{
    broadcast use vstd::seq_lib::lemma_multiset_commutative;
    assert(g.push(e).drop_last() =~= g);
    assert(group_files(g.push(e)) == group_files(g) + e.1);
}

proof fn lemma_group_into_files(g: Seq<(CompilerToolView, Seq<Seq<char>>)>, es: Seq<Entry>)
    ensures
        group_files(group_into(g, es)).to_multiset() =~= group_files(g).to_multiset().add(
            entry_paths(es).to_multiset(),
        ),
    decreases es.len(),
{
    broadcast use vstd::seq_lib::lemma_multiset_commutative;
    if es.len() == 0 {
        broadcast use vstd::seq_lib::group_to_multiset_ensures, vstd::multiset::lemma_multiset_empty_len;
        assert(entry_paths(es) =~= Seq::<Seq<char>>::empty());
        assert(entry_paths(es).to_multiset().len() == 0);
        assert(entry_paths(es).to_multiset() =~= vstd::multiset::Multiset::empty());
    } else {
        let h = group_into(g, es.drop_last());
        let e = es.last();
        lemma_group_into_files(g, es.drop_last());
        lemma_group_index(h, e.0);
        match group_index(h, e.0) {
            Some(i) => {
                assert(h[i].1.push(e.1) =~= h[i].1 + seq![e.1]);
                assert(add_to_groups(h, e) =~= h.update(i, (h[i].0, h[i].1 + seq![e.1])));
                lemma_group_files_update(h, i, seq![e.1]);
            },
            None => {
                lemma_group_files_push(h, (e.0, seq![e.1]));
            },
        }
        assert(group_into(g, es) == add_to_groups(h, e));
        assert(group_files(add_to_groups(h, e)).to_multiset() =~= group_files(h).to_multiset().add(
            seq![e.1].to_multiset(),
        ));
        assert(entry_paths(es) =~= entry_paths(es.drop_last()) + seq![e.1]);
        assert((entry_paths(es.drop_last()) + seq![e.1]).to_multiset() =~= entry_paths(es.drop_last()).to_multiset().add(
            seq![e.1].to_multiset(),
        ));
    }
}

proof fn lemma_collect_merged_files(es: Seq<(CompilerToolView, Seq<Seq<char>>)>)
    ensures
        group_files(collect_merged(es)).to_multiset() =~= group_files(es).to_multiset(),
    decreases es.len(),
{
    broadcast use vstd::seq_lib::lemma_multiset_commutative;
    if es.len() > 0 {
        let h = collect_merged(es.drop_last());
        let e = es.last();
        lemma_collect_merged_files(es.drop_last());
        lemma_group_index(h, e.0);
        match group_index(h, e.0) {
            Some(i) => {
                lemma_group_files_update(h, i, e.1);
            },
            None => {
                lemma_group_files_push(h, e);
            },
        }
    }
}

proof fn lemma_merged_groups_files(base: CompilerToolView, g: Seq<(CompilerToolView, Seq<Seq<char>>)>)
    ensures
        group_files(merged_groups(base, g)) == group_files(g),
    decreases g.len(),
{
    if g.len() > 0 {
        assert(merged_groups(base, g).drop_last() =~= merged_groups(base, g.drop_last()));
        lemma_merged_groups_files(base, g.drop_last());
    }
}

/// The files of the groups of each rank, highest rank first.
pub open spec fn ranked_files(c: Seq<(CompilerToolView, Seq<Seq<char>>)>) -> vstd::multiset::Multiset<Seq<char>> {
    group_files(with_rank(c, 4)).to_multiset().add(group_files(with_rank(c, 3)).to_multiset()).add(
        group_files(with_rank(c, 2)).to_multiset(),
    ).add(group_files(with_rank(c, 1)).to_multiset()).add(group_files(with_rank(c, 0)).to_multiset())
}

proof fn lemma_ranked_files(c: Seq<(CompilerToolView, Seq<Seq<char>>)>)
    ensures
        ranked_files(c) =~= group_files(c).to_multiset(),
    decreases c.len(),
{
    broadcast use vstd::seq_lib::lemma_multiset_commutative;
    if c.len() == 0 {
        broadcast use vstd::seq_lib::group_to_multiset_ensures, vstd::multiset::lemma_multiset_empty_len;
        reveal(Seq::filter);
        let e = Seq::<Seq<char>>::empty();
        assert(e.to_multiset().len() == 0);
        assert(e.to_multiset() =~= vstd::multiset::Multiset::empty());
        assert forall|r: int| #![trigger with_rank(c, r)] group_files(with_rank(c, r)) == e by {
            assert(with_rank(c, r).len() == 0);
        }
        assert(group_files(c) == e);
        assert(ranked_files(c) =~= vstd::multiset::Multiset::empty());
    } else {
        lemma_ranked_files(c.drop_last());
        reveal(Seq::filter);
        let x = c.last();
        let k = pch_rank(x.0.use_precompiled_header);
        assert forall|r: int| #![trigger with_rank(c, r)] with_rank(c, r) == if k == r {
            with_rank(c.drop_last(), r).push(x)
        } else {
            with_rank(c.drop_last(), r)
        } by {}
        lemma_group_files_push(with_rank(c.drop_last(), k), x);
        assert(group_files(c) == group_files(c.drop_last()) + x.1);
    }
}

proof fn lemma_sorted_groups_files(c: Seq<(CompilerToolView, Seq<Seq<char>>)>)
    ensures
        group_files(sorted_groups(c)).to_multiset() =~= group_files(c).to_multiset(),
{
    broadcast use vstd::seq_lib::lemma_multiset_commutative;
    let (a, b, d, e, f) = (with_rank(c, 4), with_rank(c, 3), with_rank(c, 2), with_rank(c, 1), with_rank(c, 0));
    lemma_group_files_concat(a, b);
    lemma_group_files_concat(a + b, d);
    lemma_group_files_concat(a + b + d, e);
    lemma_group_files_concat(a + b + d + e, f);
    lemma_ranked_files(c);
}

proof fn lemma_step_files(g: Seq<(CompilerToolView, Seq<Seq<char>>)>, cfg: Configuration, env: EnvView)
    ensures
        step_files(g.map_values(group_step(cfg, env))) == group_files(g),
    decreases g.len(),
{
    if g.len() > 0 {
        assert(g.map_values(group_step(cfg, env)).drop_last() =~= g.drop_last().map_values(group_step(cfg, env)));
        lemma_step_files(g.drop_last(), cfg, env);
    }
}

/// Law: every source that the project compiles in this configuration (each
/// `.c` or `.cpp` file that is not excluded from the build, see
/// [`project_entries`]) is in exactly one compile step, as often as the
/// project lists it; sources whose merged settings are equal share a step
/// (see [`lemma_merged_settings_distinct`]).
pub proof fn lemma_every_source_in_one_step(base: CompilerToolView, files: Files, cfg: Configuration, env: EnvView)
    ensures
        step_files(cl_groups_spec(base, files, cfg, env)).to_multiset() =~= entry_paths(
            project_entries(files, cfg.name@),
        ).to_multiset(),
{
    let es = project_entries(files, cfg.name@);
    let g = group_into(Seq::empty(), es);
    let c = collect_merged(merged_groups(base, g));
    lemma_group_into_files(Seq::empty(), es);
    broadcast use vstd::seq_lib::group_to_multiset_ensures, vstd::multiset::lemma_multiset_empty_len;
    let none = Seq::<Seq<char>>::empty();
    assert(group_files(Seq::<(CompilerToolView, Seq<Seq<char>>)>::empty()) =~= none);
    assert(none.to_multiset().len() == 0);
    assert(none.to_multiset() =~= vstd::multiset::Multiset::empty());
    assert(group_files(g).to_multiset() =~= entry_paths(es).to_multiset());
    lemma_merged_groups_files(base, g);
    lemma_collect_merged_files(merged_groups(base, g));
    lemma_sorted_groups_files(c);
    lemma_step_files(sorted_groups(c), cfg, env);
}

/// Law: no two groups that [`collect_merged`] makes have the same settings.
pub proof fn lemma_merged_settings_distinct(es: Seq<(CompilerToolView, Seq<Seq<char>>)>)
    ensures
        forall|i: int, j: int|
            0 <= i < j < collect_merged(es).len() ==> #[trigger] collect_merged(es)[i].0 != #[trigger] collect_merged(
                es,
            )[j].0,
    decreases es.len(),
{
    if es.len() > 0 {
        let h = collect_merged(es.drop_last());
        let e = es.last();
        lemma_merged_settings_distinct(es.drop_last());
        lemma_group_index(h, e.0);
        let c = collect_merged(es);
        match group_index(h, e.0) {
            Some(k) => {
                assert forall|i: int, j: int| 0 <= i < j < c.len() implies #[trigger] c[i].0 != #[trigger] c[j].0 by {
                    assert(c[i].0 == h[i].0);
                    assert(c[j].0 == h[j].0);
                }
            },
            None => {
                assert forall|i: int, j: int| 0 <= i < j < c.len() implies #[trigger] c[i].0 != #[trigger] c[j].0 by {
                    if j == h.len() {
                        assert(c[i] == h[i]);
                    } else {
                        assert(c[i] == h[i]);
                        assert(c[j] == h[j]);
                    }
                }
            },
        }
    }
}


/// Law: the definitions of a compile step hold `_UNICODE` and `UNICODE` for
/// a Unicode configuration, `_MBCS` for a multi-byte one, and `_WINDLL` for a
/// DLL, whatever the tool and the sheets define.
pub proof fn lemma_configuration_defines(t: CompilerToolView, cfg: Configuration)
    ensures
        cfg.character_set == Some(CharacterSet::_1) ==> defines_spec(t, cfg).contains("_UNICODE"@) && defines_spec(
            t,
            cfg,
        ).contains("UNICODE"@),
        cfg.character_set == Some(CharacterSet::_2) ==> defines_spec(t, cfg).contains("_MBCS"@),
        cfg.configuration_type == ConfigurationType::_2 ==> defines_spec(t, cfg).contains("_WINDLL"@),
{
    let d = defines_spec(t, cfg);
    let w = if cfg.configuration_type == ConfigurationType::_2 {
        seq!["_WINDLL"@]
    } else {
        Seq::empty()
    };
    let c = charset_defines(cfg.character_set);
    let a = list_or_empty(t.preprocessor_definitions) + match opt_list_view(cfg.inherited_property_sheets) {
        Some(s) => upgrade_defines(sheets_version(s)),
        None => Seq::empty(),
    };
    assert(d == a + w + c);
    if cfg.character_set == Some(CharacterSet::_1) {
        assert(d[(a.len() + w.len()) as int] == "_UNICODE"@);
        assert(d[(a.len() + w.len() + 1) as int] == "UNICODE"@);
    }
    if cfg.character_set == Some(CharacterSet::_2) {
        assert(d[(a.len() + w.len()) as int] == "_MBCS"@);
    }
    if cfg.configuration_type == ConfigurationType::_2 {
        assert(d[a.len() as int] == "_WINDLL"@);
    }
}

/// Law: every compile step of a project gets the definitions of its
/// configuration's character set (see [`lemma_configuration_defines`]).
pub proof fn lemma_steps_define_character_set(base: CompilerToolView, files: Files, cfg: Configuration, env: EnvView)
    ensures
        forall|i: int| 0 <= i < cl_groups_spec(base, files, cfg, env).len() ==> {
            let g = #[trigger] cl_groups_spec(base, files, cfg, env)[i];
            &&& cfg.character_set == Some(CharacterSet::_1) ==> g.defines.contains("_UNICODE"@)
                && g.defines.contains("UNICODE"@)
            &&& cfg.character_set == Some(CharacterSet::_2) ==> g.defines.contains("_MBCS"@)
        },
{
    reveal_strlit("_UNICODE");
    reveal_strlit("UNICODE");
    reveal_strlit("_MBCS");
    let s = sorted_groups(collect_merged(merged_groups(base, group_into(Seq::empty(), project_entries(files, cfg.name@)))));
    assert forall|i: int| 0 <= i < cl_groups_spec(base, files, cfg, env).len() implies {
        let g = #[trigger] cl_groups_spec(base, files, cfg, env)[i];
        &&& cfg.character_set == Some(CharacterSet::_1) ==> g.defines.contains("_UNICODE"@)
            && g.defines.contains("UNICODE"@)
        &&& cfg.character_set == Some(CharacterSet::_2) ==> g.defines.contains("_MBCS"@)
    } by {
        let e = s[i];
        let g = cl_groups_spec(base, files, cfg, env)[i];
        assert(g == cl_group_spec(e.0, e.1, cfg, env));
        let d = defines_spec(e.0, cfg);
        assert(g.defines == d.filter(|x: Seq<char>| x.len() > 0));
        lemma_configuration_defines(e.0, cfg);
        if cfg.character_set == Some(CharacterSet::_1) {
            let k1 = choose|k: int| 0 <= k < d.len() && d[k] == "_UNICODE"@;
            let k2 = choose|k: int| 0 <= k < d.len() && d[k] == "UNICODE"@;
            d.lemma_filter_contains(|x: Seq<char>| x.len() > 0, k1);
            d.lemma_filter_contains(|x: Seq<char>| x.len() > 0, k2);
        }
        if cfg.character_set == Some(CharacterSet::_2) {
            let k1 = choose|k: int| 0 <= k < d.len() && d[k] == "_MBCS"@;
            d.lemma_filter_contains(|x: Seq<char>| x.len() > 0, k1);
        }
    }
}

} // verus!
