//! What the lexer reports about a SQL template: the rewritten text and the
//! parameters that occur in it.

use vstd::prelude::*;

verus! {

/// A named parameter (`$name`) of a SQL template.
#[derive(Debug, Clone, PartialEq, Eq)]
pub struct Param {
    /// The name, without the dollar sign.
    pub name: String,
    /// `Some(true)` for `$name?`, `Some(false)` for `$name!`; the first
    /// occurrence of the name decides.
    pub nullable: Option<bool>,
    /// Byte offsets in the rewritten text, each directly behind one placeholder
    /// of this parameter.
    pub sql_offsets: Vec<usize>,
}

/// One field in the braces of a spread parameter.
#[derive(Debug, Clone, PartialEq, Eq)]
pub struct SpreadField {
    pub name: String,
    pub nullable: bool,
}

/// A spread parameter (`$..name` or `$..name { a, b? }`).
#[derive(Debug, Clone, PartialEq, Eq)]
pub struct SpreadParam {
    pub name: String,
    /// The fields in the braces, or `None` where there are no braces.
    pub fields: Option<Vec<SpreadField>>,
    /// Byte offset in the rewritten text at which the spread stood.
    pub offset: usize,
}

/// The rewritten text and the parameters found in it.
#[derive(Debug, Clone, PartialEq, Eq)]
pub struct LexOutput {
    pub sql: String,
    pub params: Vec<Param>,
    pub spreads: Vec<SpreadParam>,
}

impl vstd::std_specs::convert::FromSpecImpl<&str> for SpreadField {
    open spec fn obeys_from_spec() -> bool {
        false
    }

    open spec fn from_spec(v: &str) -> Self {
        arbitrary()
    }
}

impl From<&str> for SpreadField {
    /// A field that is not annotated as nullable.
    fn from(name: &str) -> (r: SpreadField)
        ensures
            r@ == (SpreadFieldView { name: name@, nullable: false }),
    {
        SpreadField { name: name.to_owned(), nullable: false }
    }
}

#[verifier::ext_equal]
pub struct ParamView {
    pub name: Seq<char>,
    pub nullable: Option<bool>,
    pub sql_offsets: Seq<nat>,
}

#[verifier::ext_equal]
pub struct SpreadFieldView {
    pub name: Seq<char>,
    pub nullable: bool,
}

#[verifier::ext_equal]
pub struct SpreadParamView {
    pub name: Seq<char>,
    pub fields: Option<Seq<SpreadFieldView>>,
    pub offset: nat,
}

#[verifier::ext_equal]
pub struct LexOutputView {
    pub sql: Seq<char>,
    pub params: Seq<ParamView>,
    pub spreads: Seq<SpreadParamView>,
}

impl View for Param {
    type V = ParamView;

    open spec fn view(&self) -> ParamView {
        ParamView {
            name: self.name@,
            nullable: self.nullable,
            sql_offsets: self.sql_offsets@.map_values(|n: usize| n as nat),
        }
    }
}

impl View for SpreadField {
    type V = SpreadFieldView;

    open spec fn view(&self) -> SpreadFieldView {
        SpreadFieldView { name: self.name@, nullable: self.nullable }
    }
}

/// The views of a list of spread fields.
pub open spec fn field_views(fields: Seq<SpreadField>) -> Seq<SpreadFieldView> {
    fields.map_values(|f: SpreadField| f@)
}

/// The views of a list of parameters.
pub open spec fn param_views(params: Seq<Param>) -> Seq<ParamView> {
    params.map_values(|p: Param| p@)
}

/// The views of a list of spread parameters.
pub open spec fn spread_views(spreads: Seq<SpreadParam>) -> Seq<SpreadParamView> {
    spreads.map_values(|p: SpreadParam| p@)
}

impl View for SpreadParam {
    type V = SpreadParamView;

    open spec fn view(&self) -> SpreadParamView {
        SpreadParamView {
            name: self.name@,
            fields: match self.fields {
                Some(fields) => Some(field_views(fields@)),
                None => None,
            },
            offset: self.offset as nat,
        }
    }
}

impl View for LexOutput {
    type V = LexOutputView;

    open spec fn view(&self) -> LexOutputView {
        LexOutputView {
            sql: self.sql@,
            params: param_views(self.params@),
            spreads: spread_views(self.spreads@),
        }
    }
}

/// The position of the first parameter called `name`, or the number of
/// parameters where there is none.
pub open spec fn param_position(params: Seq<ParamView>, name: Seq<char>) -> int
    decreases params.len(),
{
    if params.len() == 0 {
        0
    } else if params[0].name == name {
        0
    } else {
        1 + param_position(params.drop_first(), name)
    }
}

} // verus!
