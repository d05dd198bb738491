//! The closed diagnostic vocabulary: severities, categories, fix
//! applicability, location requirements, envelope statuses, and the
//! bounded structured data values.

use vstd::prelude::*;
use crate::text::str_eq;

verus! {

/// Result envelope status of a whole operation.
#[derive(Clone, Copy, Debug, PartialEq, Eq, Structural)]
pub enum Status {
    /// `valid`
    Valid,
    /// `invalid`
    Invalid,
    /// `denied`
    Denied,
    /// `unsupported`
    Unsupported,
    /// `unavailable`
    Unavailable,
    /// `unsupported-version`
    UnsupportedVersion,
}

impl Status {
    /// The wire spelling of each member.
    pub open spec fn spec_text(self) -> Seq<char> {
        match self {
            Status::Valid => "valid"@,
            Status::Invalid => "invalid"@,
            Status::Denied => "denied"@,
            Status::Unsupported => "unsupported"@,
            Status::Unavailable => "unavailable"@,
            Status::UnsupportedVersion => "unsupported-version"@,
        }
    }

    /// The exact wire spelling.
    pub fn as_str(self) -> (r: &'static str)
        ensures
            r@ == self.spec_text(),
    {
        match self {
            Status::Valid => "valid",
            Status::Invalid => "invalid",
            Status::Denied => "denied",
            Status::Unsupported => "unsupported",
            Status::Unavailable => "unavailable",
            Status::UnsupportedVersion => "unsupported-version",
        }
    }

    /// The member spelled `t`, if any.
    pub open spec fn spec_parse(t: Seq<char>) -> Option<Status> {
        if t == "valid"@ {
            Some(Status::Valid)
        } else if t == "invalid"@ {
            Some(Status::Invalid)
        } else if t == "denied"@ {
            Some(Status::Denied)
        } else if t == "unsupported"@ {
            Some(Status::Unsupported)
        } else if t == "unavailable"@ {
            Some(Status::Unavailable)
        } else if t == "unsupported-version"@ {
            Some(Status::UnsupportedVersion)
        } else {
            None
        }
    }

    /// Parse the exact wire spelling.
    pub fn parse(text: &str) -> (r: Option<Status>)
        ensures
            r == Status::spec_parse(text@),
    {
        if str_eq(text, "valid") {
            Some(Status::Valid)
        } else if str_eq(text, "invalid") {
            Some(Status::Invalid)
        } else if str_eq(text, "denied") {
            Some(Status::Denied)
        } else if str_eq(text, "unsupported") {
            Some(Status::Unsupported)
        } else if str_eq(text, "unavailable") {
            Some(Status::Unavailable)
        } else if str_eq(text, "unsupported-version") {
            Some(Status::UnsupportedVersion)
        } else {
            None
        }
    }
}

/// Every `Status` spelling parses back to its member, and nothing
/// else parses to that member.
pub proof fn lemma_status_round_trip(x: Status, t: Seq<char>)
    ensures
        Status::spec_parse(x.spec_text()) == Some(x),
        Status::spec_parse(t) == Some(x) ==> t == x.spec_text(),
{
    reveal_strlit("valid");
    reveal_strlit("invalid");
    reveal_strlit("denied");
    reveal_strlit("unsupported");
    reveal_strlit("unavailable");
    reveal_strlit("unsupported-version");
    assert("valid"@.len() == 5);
    assert("invalid"@.len() == 7);
    assert("denied"@.len() == 6);
    assert("unsupported"@.len() == 11);
    assert("unavailable"@.len() == 11);
    assert("unsupported-version"@.len() == 19);
    assert("unsupported"@[2] == 's');
    assert("unavailable"@[2] == 'a');
}
/// The closed diagnostic severity, ordered by weight.
#[derive(Clone, Copy, Debug, PartialEq, Eq, Structural)]
pub enum Severity {
    /// `info`
    Info,
    /// `warning`
    Warning,
    /// `error`
    Error,
}

impl Severity {
    /// The wire spelling of each member.
    pub open spec fn spec_text(self) -> Seq<char> {
        match self {
            Severity::Info => "info"@,
            Severity::Warning => "warning"@,
            Severity::Error => "error"@,
        }
    }

    /// The exact wire spelling.
    pub fn as_str(self) -> (r: &'static str)
        ensures
            r@ == self.spec_text(),
    {
        match self {
            Severity::Info => "info",
            Severity::Warning => "warning",
            Severity::Error => "error",
        }
    }

    /// The member spelled `t`, if any.
    pub open spec fn spec_parse(t: Seq<char>) -> Option<Severity> {
        if t == "info"@ {
            Some(Severity::Info)
        } else if t == "warning"@ {
            Some(Severity::Warning)
        } else if t == "error"@ {
            Some(Severity::Error)
        } else {
            None
        }
    }

    /// Parse the exact wire spelling.
    pub fn parse(text: &str) -> (r: Option<Severity>)
        ensures
            r == Severity::spec_parse(text@),
    {
        if str_eq(text, "info") {
            Some(Severity::Info)
        } else if str_eq(text, "warning") {
            Some(Severity::Warning)
        } else if str_eq(text, "error") {
            Some(Severity::Error)
        } else {
            None
        }
    }

    /// The weight order: info < warning < error.
    pub open spec fn spec_rank(self) -> nat {
        match self {
            Severity::Info => 0,
            Severity::Warning => 1,
            Severity::Error => 2,
        }
    }
}

/// Every `Severity` spelling parses back to its member, and nothing
/// else parses to that member.
pub proof fn lemma_severity_round_trip(x: Severity, t: Seq<char>)
    ensures
        Severity::spec_parse(x.spec_text()) == Some(x),
        Severity::spec_parse(t) == Some(x) ==> t == x.spec_text(),
{
    reveal_strlit("info");
    reveal_strlit("warning");
    reveal_strlit("error");
    assert("info"@.len() == 4);
    assert("warning"@.len() == 7);
    assert("error"@.len() == 5);
}
/// The closed diagnostic category.
#[derive(Clone, Copy, Debug, PartialEq, Eq, Structural)]
pub enum Category {
    /// `model`
    Model,
    /// `semantic`
    Semantic,
    /// `compatibility`
    Compatibility,
    /// `adapter`
    Adapter,
    /// `infrastructure`
    Infrastructure,
    /// `security`
    Security,
}

impl Category {
    /// The wire spelling of each member.
    pub open spec fn spec_text(self) -> Seq<char> {
        match self {
            Category::Model => "model"@,
            Category::Semantic => "semantic"@,
            Category::Compatibility => "compatibility"@,
            Category::Adapter => "adapter"@,
            Category::Infrastructure => "infrastructure"@,
            Category::Security => "security"@,
        }
    }

    /// The exact wire spelling.
    pub fn as_str(self) -> (r: &'static str)
        ensures
            r@ == self.spec_text(),
    {
        match self {
            Category::Model => "model",
            Category::Semantic => "semantic",
            Category::Compatibility => "compatibility",
            Category::Adapter => "adapter",
            Category::Infrastructure => "infrastructure",
            Category::Security => "security",
        }
    }

    /// The member spelled `t`, if any.
    pub open spec fn spec_parse(t: Seq<char>) -> Option<Category> {
        if t == "model"@ {
            Some(Category::Model)
        } else if t == "semantic"@ {
            Some(Category::Semantic)
        } else if t == "compatibility"@ {
            Some(Category::Compatibility)
        } else if t == "adapter"@ {
            Some(Category::Adapter)
        } else if t == "infrastructure"@ {
            Some(Category::Infrastructure)
        } else if t == "security"@ {
            Some(Category::Security)
        } else {
            None
        }
    }

    /// Parse the exact wire spelling.
    pub fn parse(text: &str) -> (r: Option<Category>)
        ensures
            r == Category::spec_parse(text@),
    {
        if str_eq(text, "model") {
            Some(Category::Model)
        } else if str_eq(text, "semantic") {
            Some(Category::Semantic)
        } else if str_eq(text, "compatibility") {
            Some(Category::Compatibility)
        } else if str_eq(text, "adapter") {
            Some(Category::Adapter)
        } else if str_eq(text, "infrastructure") {
            Some(Category::Infrastructure)
        } else if str_eq(text, "security") {
            Some(Category::Security)
        } else {
            None
        }
    }
}

/// Every `Category` spelling parses back to its member, and nothing
/// else parses to that member.
pub proof fn lemma_category_round_trip(x: Category, t: Seq<char>)
    ensures
        Category::spec_parse(x.spec_text()) == Some(x),
        Category::spec_parse(t) == Some(x) ==> t == x.spec_text(),
{
    reveal_strlit("model");
    reveal_strlit("semantic");
    reveal_strlit("compatibility");
    reveal_strlit("adapter");
    reveal_strlit("infrastructure");
    reveal_strlit("security");
    assert("model"@.len() == 5);
    assert("semantic"@.len() == 8);
    assert("compatibility"@.len() == 13);
    assert("adapter"@.len() == 7);
    assert("infrastructure"@.len() == 14);
    assert("security"@.len() == 8);
    assert("semantic"@[2] == 'm');
    assert("security"@[2] == 'c');
}
/// How safe applying a suggested fix is.
#[derive(Clone, Copy, Debug, PartialEq, Eq, Structural)]
pub enum FixApplicability {
    Safe,
    Unsafe,
    Breaking,
}

impl FixApplicability {
    pub open spec fn spec_text(self) -> Seq<char> {
        match self {
            FixApplicability::Safe => "safe"@,
            FixApplicability::Unsafe => "unsafe"@,
            FixApplicability::Breaking => "breaking"@,
        }
    }

    /// The exact wire spelling.
    pub fn as_str(self) -> (r: &'static str)
        ensures
            r@ == self.spec_text(),
    {
        match self {
            FixApplicability::Safe => "safe",
            FixApplicability::Unsafe => "unsafe",
            FixApplicability::Breaking => "breaking",
        }
    }

    /// The ordering rank: safe, unsafe, breaking.
    pub fn rank(self) -> (r: u8)
        ensures
            r == match self {
                FixApplicability::Safe => 0u8,
                FixApplicability::Unsafe => 1u8,
                FixApplicability::Breaking => 2u8,
            },
    {
        match self {
            FixApplicability::Safe => 0,
            FixApplicability::Unsafe => 1,
            FixApplicability::Breaking => 2,
        }
    }
}

/// Where a rule must be located.
#[derive(Clone, Copy, Debug, PartialEq, Eq, Structural)]
pub enum LocationRequirement {
    /// Spelled `none`: the rule is global.
    Unlocated,
    Path,
    Span,
}

impl LocationRequirement {
    pub open spec fn spec_parse(t: Seq<char>) -> Option<LocationRequirement> {
        if t == "none"@ {
            Some(LocationRequirement::Unlocated)
        } else if t == "path"@ {
            Some(LocationRequirement::Path)
        } else if t == "span"@ {
            Some(LocationRequirement::Span)
        } else {
            None
        }
    }

    /// Parse the exact wire spelling.
    pub fn parse(text: &str) -> (r: Option<LocationRequirement>)
        ensures
            r == LocationRequirement::spec_parse(text@),
    {
        if str_eq(text, "none") {
            Some(LocationRequirement::Unlocated)
        } else if str_eq(text, "path") {
            Some(LocationRequirement::Path)
        } else if str_eq(text, "span") {
            Some(LocationRequirement::Span)
        } else {
            None
        }
    }
}

/// The declared type of one registered data field.
#[derive(Clone, Copy, Debug, PartialEq, Eq, Structural)]
pub enum DataFieldType {
    Token,
    Count,
    Flag,
    List,
    Records,
    Record,
}

impl DataFieldType {
    pub open spec fn spec_parse(t: Seq<char>) -> Option<DataFieldType> {
        if t == "token"@ {
            Some(DataFieldType::Token)
        } else if t == "count"@ {
            Some(DataFieldType::Count)
        } else if t == "flag"@ {
            Some(DataFieldType::Flag)
        } else if t == "list"@ {
            Some(DataFieldType::List)
        } else if t == "records"@ {
            Some(DataFieldType::Records)
        } else if t == "record"@ {
            Some(DataFieldType::Record)
        } else {
            None
        }
    }

    /// Parse the exact wire spelling.
    pub fn parse(text: &str) -> (r: Option<DataFieldType>)
        ensures
            r == DataFieldType::spec_parse(text@),
    {
        if str_eq(text, "token") {
            Some(DataFieldType::Token)
        } else if str_eq(text, "count") {
            Some(DataFieldType::Count)
        } else if str_eq(text, "flag") {
            Some(DataFieldType::Flag)
        } else if str_eq(text, "list") {
            Some(DataFieldType::List)
        } else if str_eq(text, "records") {
            Some(DataFieldType::Records)
        } else if str_eq(text, "record") {
            Some(DataFieldType::Record)
        } else {
            None
        }
    }
}

/// One scalar data member.
#[derive(Clone, Debug, PartialEq, Eq)]
pub enum Scalar {
    Token(String),
    Count(u64),
    Flag(bool),
}

/// One member of a nested record list.
#[derive(Clone, Debug, PartialEq, Eq)]
pub enum NestedValue {
    Scalar(Scalar),
    Record(Vec<(String, Scalar)>),
}

/// One registered data value; records keep their fields in key order.
#[derive(Clone, Debug, PartialEq, Eq)]
pub enum DataValue {
    Token(String),
    Count(u64),
    Flag(bool),
    List(Vec<Scalar>),
    Records(Vec<Vec<(String, NestedValue)>>),
    Record(Vec<(String, NestedValue)>),
}

impl DataValue {
    /// The declared field type this value inhabits.
    pub fn field_type(&self) -> (r: DataFieldType)
        ensures
            r == match self {
                DataValue::Token(_) => DataFieldType::Token,
                DataValue::Count(_) => DataFieldType::Count,
                DataValue::Flag(_) => DataFieldType::Flag,
                DataValue::List(_) => DataFieldType::List,
                DataValue::Records(_) => DataFieldType::Records,
                DataValue::Record(_) => DataFieldType::Record,
            },
    {
        match self {
            DataValue::Token(_) => DataFieldType::Token,
            DataValue::Count(_) => DataFieldType::Count,
            DataValue::Flag(_) => DataFieldType::Flag,
            DataValue::List(_) => DataFieldType::List,
            DataValue::Records(_) => DataFieldType::Records,
            DataValue::Record(_) => DataFieldType::Record,
        }
    }
}

/// The diagnostic item schema version.
#[derive(Clone, Copy, Debug, PartialEq, Eq, Structural)]
pub enum DiagnosticSchemaVersion {
    Current,
}

impl DiagnosticSchemaVersion {
    /// The exact wire spelling, `lekalo/diagnostic/v0.2.16`.
    pub fn as_str(self) -> (r: &'static str)
        ensures
            r@ == "lekalo/diagnostic/v0.2.16"@,
    {
        "lekalo/diagnostic/v0.2.16"
    }
}

} // verus!
