//! Errors the engine returns to its callers.
use vstd::prelude::*;
use vstd::string::*;

verus! {

/// What went wrong in a settings operation.
#[derive(Debug, Clone, PartialEq, Eq)]
pub enum SettingsError {
    /// The setting or type is absent.
    NotFound { resource: String, id: String },
    /// Duplicate registration, a compliance lock, or the overwrite policy.
    Conflict { reason: String },
    /// Malformed input.
    Validation { message: String },
    /// Reserved: lock violations are reported as `Conflict`.
    Locked { setting_type: String },
    /// The type identifier is not registered.
    TypeNotRegistered { gts_type: String },
    /// The type identifier lacks the prefix or the separator.
    InvalidGtsFormat { gts: String, details: String },
    /// The value does not satisfy the type's schema.
    SchemaValidation { errors: Vec<String> },
    /// A store failed.
    Internal,
}

impl SettingsError {
    /// A human-readable description of the error.
    pub fn message(&self) -> (r: String)
        ensures
            r@ == message_for(*self),
    {
        match self {
            SettingsError::NotFound { resource, id } => concat3(resource.as_str(), " not found: ", id.as_str()),
            SettingsError::Conflict { reason } => concat2("Conflict: ", reason.as_str()),
            SettingsError::Validation { message } => concat2("Validation error: ", message.as_str()),
            SettingsError::Locked { setting_type } => concat2("Setting is locked: ", setting_type.as_str()),
            SettingsError::TypeNotRegistered { gts_type } => concat2("GTS type not registered: ", gts_type.as_str()),
            SettingsError::InvalidGtsFormat { gts, details } => {
                let mut s = concat3("Invalid GTS format '", gts.as_str(), "': ");
                s.append(details.as_str());
                s
            },
            SettingsError::SchemaValidation { errors } => {
                let joined = join_messages(errors);
                concat2("Schema validation failed: ", joined.as_str())
            },
            SettingsError::Internal => String::from_str("Internal error"),
        }
    }
}

/// An error as problem details: a type URI, a title, an HTTP status, and
/// optionally a detail and the occurrence.
#[derive(Debug, Clone)]
pub struct Problem {
    pub type_uri: String,
    pub title: String,
    pub status: u16,
    pub detail: Option<String>,
    pub instance: Option<String>,
}

impl Problem {
    /// Problem details with the given status and title, and no detail.
    pub fn new(status: u16, title: String) -> (r: Self)
        ensures
            r.status == status,
            r.title == title,
            r.type_uri@ == "https://httpstatuses.io/"@ + decimal(status as nat),
            r.detail is None,
            r.instance is None,
    {
        let mut type_uri = String::from_str("https://httpstatuses.io/");
        let code = decimal_text(status);
        type_uri.append(code.as_str());
        Problem { type_uri, title, status, detail: None, instance: None }
    }

    /// The same problem with the given detail.
    pub fn with_detail(self, detail: String) -> (r: Self)
        ensures
            r.detail == Some(detail),
            r.type_uri == self.type_uri,
            r.title == self.title,
            r.status == self.status,
            r.instance == self.instance,
    {
        Problem { detail: Some(detail), ..self }
    }

    /// The same problem with the given occurrence.
    pub fn with_instance(self, instance: String) -> (r: Self)
        ensures
            r.instance == Some(instance),
            r.type_uri == self.type_uri,
            r.title == self.title,
            r.status == self.status,
            r.detail == self.detail,
    {
        Problem { instance: Some(instance), ..self }
    }
}

/// The HTTP status an error maps to.
pub open spec fn status_for(e: SettingsError) -> u16 {
    match e {
        SettingsError::NotFound { .. } => 404,
        SettingsError::Conflict { .. } => 409,
        SettingsError::Validation { .. } => 400,
        SettingsError::Locked { .. } => 423,
        SettingsError::TypeNotRegistered { .. } => 400,
        SettingsError::InvalidGtsFormat { .. } => 400,
        SettingsError::SchemaValidation { .. } => 400,
        SettingsError::Internal => 500,
    }
}

/// The title an error maps to.
pub open spec fn title_for(e: SettingsError) -> Seq<char> {
    match e {
        SettingsError::NotFound { resource, .. } => resource@ + " Not Found"@,
        SettingsError::Conflict { .. } => "Conflict"@,
        SettingsError::Validation { .. } => "Validation Error"@,
        SettingsError::Locked { .. } => "Setting Locked"@,
        SettingsError::TypeNotRegistered { .. } => "GTS Type Not Registered"@,
        SettingsError::InvalidGtsFormat { .. } => "Invalid GTS Format"@,
        SettingsError::SchemaValidation { .. } => "Schema Validation Failed"@,
        SettingsError::Internal => "Internal Server Error"@,
    }
}

fn concat2(a: &str, b: &str) -> (r: String)
    ensures
        r@ == a@ + b@,
{
    let mut s = String::from_str(a);
    s.append(b);
    s
}

fn concat3(a: &str, b: &str, c: &str) -> (r: String)
    ensures
        r@ == a@ + b@ + c@,
{

    let mut s = String::from_str(a);
    s.append(b);
    s.append(c);
    s
}

/// The messages joined by `, `.
pub open spec fn joined(errors: Seq<String>) -> Seq<char>
    decreases errors.len(),
{
    if errors.len() == 0 {
        Seq::empty()
    } else if errors.len() == 1 {
        errors[0]@
    } else {
        joined(errors.drop_last()) + ", "@ + errors.last()@
    }
}

fn join_messages(errors: &Vec<String>) -> (r: String)
    ensures
        r@ == joined(errors@),
{
    let mut out = String::new();
    let mut i: usize = 0;
    while i < errors.len()
        invariant
            i <= errors@.len(),
            out@ == joined(errors@.take(i as int)),
        decreases errors.len() - i,
    {
        let ghost before = errors@.take(i as int);
        assert(errors@.take(i + 1).drop_last() =~= before);
        if i > 0 {
            out.append(", ");
        } else {
            assert(out@ =~= Seq::<char>::empty());
        }
        out.append(errors[i].as_str());
        assert(errors@.take(i + 1).last() == errors@[i as int]);
        if i == 0 {
            assert(out@ =~= errors@[0]@);
        }
        i = i + 1;
    }
    assert(errors@.take(i as int) =~= errors@);
    out
}

/// The human-readable description of an error.
pub open spec fn message_for(e: SettingsError) -> Seq<char> {
    match e {
        SettingsError::NotFound { resource, id } => resource@ + " not found: "@ + id@,
        SettingsError::Conflict { reason } => "Conflict: "@ + reason@,
        SettingsError::Validation { message } => "Validation error: "@ + message@,
        SettingsError::Locked { setting_type } => "Setting is locked: "@ + setting_type@,
        SettingsError::TypeNotRegistered { gts_type } => "GTS type not registered: "@ + gts_type@,
        SettingsError::InvalidGtsFormat { gts, details } => "Invalid GTS format '"@ + gts@ + "': "@
            + details@,
        SettingsError::SchemaValidation { errors } => "Schema validation failed: "@ + joined(
            errors@,
        ),
        SettingsError::Internal => "Internal error"@,
    }
}

/// The detail text of the problem an error maps to.
pub open spec fn detail_for(e: SettingsError) -> Seq<char> {
    match e {
        SettingsError::NotFound { resource, id } => resource@ + " with id '"@ + id@
            + "' was not found"@,
        SettingsError::Conflict { reason } => reason@,
        SettingsError::Validation { message } => message@,
        SettingsError::Locked { setting_type } => "Setting '"@ + setting_type@
            + "' is locked and cannot be modified"@,
        SettingsError::TypeNotRegistered { gts_type } => "GTS type '"@ + gts_type@
            + "' must be registered before creating settings"@,
        SettingsError::InvalidGtsFormat { gts, details } => "Invalid GTS '"@ + gts@ + "': "@
            + details@,
        SettingsError::SchemaValidation { errors } => "Validation errors: "@ + joined(errors@),
        SettingsError::Internal => "An unexpected error occurred"@,
    }
}

/// The character of a decimal digit.
pub open spec fn digit_char(d: int) -> char {
    if d == 0 {
        '0'
    } else if d == 1 {
        '1'
    } else if d == 2 {
        '2'
    } else if d == 3 {
        '3'
    } else if d == 4 {
        '4'
    } else if d == 5 {
        '5'
    } else if d == 6 {
        '6'
    } else if d == 7 {
        '7'
    } else if d == 8 {
        '8'
    } else {
        '9'
    }
}

/// The decimal digits of a number, without leading zeros.
pub open spec fn decimal(n: nat) -> Seq<char>
    decreases n,
{
    if n < 10 {
        seq![digit_char(n as int)]
    } else {
        decimal(n / 10) + seq![digit_char((n % 10) as int)]
    }
}

fn digit_text(d: u16) -> (r: &'static str)
    requires
        d < 10,
    ensures
        r@ == seq![digit_char(d as int)],
{
    proof {
        reveal_strlit("0");
        reveal_strlit("1");
        reveal_strlit("2");
        reveal_strlit("3");
        reveal_strlit("4");
        reveal_strlit("5");
        reveal_strlit("6");
        reveal_strlit("7");
        reveal_strlit("8");
        reveal_strlit("9");
    }
    let r = match d {
        0 => "0",
        1 => "1",
        2 => "2",
        3 => "3",
        4 => "4",
        5 => "5",
        6 => "6",
        7 => "7",
        8 => "8",
        _ => "9",
    };
    assert(r@ =~= seq![digit_char(d as int)]);
    r
}

/// The decimal text of a number.
pub fn decimal_text(n: u16) -> (r: String)
    ensures
        r@ == decimal(n as nat),
    decreases n,
{
    if n < 10 {
        String::from_str(digit_text(n))
    } else {
        let mut s = decimal_text(n / 10);
        s.append(digit_text(n % 10));
        s
    }
}

/// Maps an error to problem details. A conflict or validation error carries
/// its own text as the detail.
pub fn map_domain_error(error: SettingsError) -> (r: Problem)
    ensures
        r.status == status_for(error),
        r.title@ == title_for(error),
        r.type_uri@ == "https://httpstatuses.io/"@ + decimal(status_for(error) as nat),
        r.detail is Some && r.detail->0@ == detail_for(error),
        r.instance is None,
{
    match error {
        SettingsError::NotFound { resource, id } => {
            let mut title = String::from_str(resource.as_str());
            title.append(" Not Found");
            let mut detail = concat3(resource.as_str(), " with id '", id.as_str());
            detail.append("' was not found");
            Problem::new(404, title).with_detail(detail)
        },
        SettingsError::Conflict { reason } => Problem::new(409, String::from_str("Conflict")).with_detail(
            reason,
        ),
        SettingsError::Validation { message } => Problem::new(
            400,
            String::from_str("Validation Error"),
        ).with_detail(message),
        SettingsError::Locked { setting_type } => Problem::new(
            423,
            String::from_str("Setting Locked"),
        ).with_detail(
            concat3("Setting '", setting_type.as_str(), "' is locked and cannot be modified"),
        ),
        SettingsError::TypeNotRegistered { gts_type } => Problem::new(
            400,
            String::from_str("GTS Type Not Registered"),
        ).with_detail(
            concat3(
                "GTS type '",
                gts_type.as_str(),
                "' must be registered before creating settings",
            ),
        ),
        SettingsError::InvalidGtsFormat { gts, details } => {
            let mut detail = concat3("Invalid GTS '", gts.as_str(), "': ");
            detail.append(details.as_str());
            Problem::new(400, String::from_str("Invalid GTS Format")).with_detail(detail)
        },
        SettingsError::SchemaValidation { errors } => {
            let mut detail = String::from_str("Validation errors: ");
            let joined = join_messages(&errors);
            detail.append(joined.as_str());
            Problem::new(400, String::from_str("Schema Validation Failed")).with_detail(detail)
        },
        SettingsError::Internal => Problem::new(
            500,
            String::from_str("Internal Server Error"),
        ).with_detail(String::from_str("An unexpected error occurred")),
    }
}

} // verus!
