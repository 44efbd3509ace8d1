//! Stable machine-readable diagnostics.
use crate::identity::SemanticId;
use vstd::prelude::*;

verus! {

broadcast use vstd::string::is_ascii_spec_bytes, vstd::utf8::is_ascii_chars_encode_utf8;

/// Diagnostic severity independent of presentation.
#[derive(Clone, Copy, Debug, PartialEq, Eq, PartialOrd, Ord, Structural)]
pub enum Severity {
    /// Informational context that does not invalidate a result.
    Info,
    /// A recoverable condition that deserves user attention.
    Warning,
    /// A condition that makes the requested result invalid.
    Error,
}

/// Error returned for a malformed stable diagnostic code.
#[derive(Clone, Copy, Debug, PartialEq, Eq, Structural)]
pub struct DiagnosticCodeError;

impl DiagnosticCodeError {
    /// The human-readable explanation of the error.
    pub fn message(&self) -> (message: &'static str)
        ensures
            message@ == "diagnostic codes must use non-empty ASCII uppercase segments separated by dots"@,
    {
        "diagnostic codes must use non-empty ASCII uppercase segments separated by dots"
    }
}

/// A character allowed inside one segment of a code: an ASCII uppercase
/// letter, an ASCII digit, or an underscore.
pub open spec fn is_code_char(c: char) -> bool {
    ('A' <= c && c <= 'Z') || ('0' <= c && c <= '9') || c == '_'
}

/// A well-formed code: a non-empty sequence of non-empty segments of code
/// characters, separated by single dots.
pub open spec fn is_valid_code(s: Seq<char>) -> bool {
    &&& s.len() > 0
    &&& forall|i: int| 0 <= i < s.len() ==> is_code_char(#[trigger] s[i]) || s[i] == '.'
    &&& s[0] != '.'
    &&& s[s.len() - 1] != '.'
    &&& forall|i: int| 0 <= i < s.len() - 1 ==> !(#[trigger] s[i] == '.' && s[i + 1] == '.')
}

/// A stable diagnostic identifier such as `TOPOLOGY.LOOP.NOT_CLOSED`.
#[derive(Debug, PartialEq, Eq, Hash, PartialOrd, Ord)]
pub struct DiagnosticCode(String);

impl Clone for DiagnosticCode {
    fn clone(&self) -> (copy: Self)
        ensures
            copy@ == self@,
    {
        proof {
            use_type_invariant(self);
        }
        DiagnosticCode(self.0.clone())
    }
}

impl View for DiagnosticCode {
    type V = Seq<char>;

    closed spec fn view(&self) -> Seq<char> {
        self.0@
    }
}

fn is_code_byte(byte: u8) -> (allowed: bool)
    ensures
        allowed == ((0x41 <= byte <= 0x5a) || (0x30 <= byte <= 0x39) || byte == 0x5f),
{
    (0x41 <= byte && byte <= 0x5a) || (0x30 <= byte && byte <= 0x39) || byte == 0x5f
}

impl DiagnosticCode {
    /// Every stored code is well formed.
    #[verifier::type_invariant]
    spec fn well_formed(self) -> bool {
        is_valid_code(self.0@)
    }

    /// Validates and creates a stable diagnostic code.
    ///
    /// Returns [`DiagnosticCodeError`] when the value is empty or contains
    /// anything other than uppercase ASCII segments separated by dots.
    pub fn try_new(value: &str) -> (code: Result<Self, DiagnosticCodeError>)
        ensures
            code is Ok <==> is_valid_code(value@),
            code matches Ok(c) ==> c@ == value@,
    {
        if !value.is_ascii() {
            proof {
                if is_valid_code(value@) {
                    assert forall|i: int| 0 <= i < value@.len() implies '\0' <= #[trigger] value@[i]
                        <= '\u{7f}' by {
                        assert(is_code_char(value@[i]) || value@[i] == '.');
                    }
                }
            }
            return Err(DiagnosticCodeError);
        }
        let bytes = value.as_bytes();
        let n = bytes.len();
        assert(bytes@.len() == value@.len());
        if n == 0 {
            return Err(DiagnosticCodeError);
        }
        let ghost s = value@;
        let mut i: usize = 0;
        let mut after_dot = true;
        while i < n
            invariant
                n == bytes@.len(),
                n == s.len(),
                s == value@,
                vstd::string::is_ascii(value),
                forall|k: int| 0 <= k < n ==> #[trigger] bytes@[k] == s[k] as u8,
                forall|k: int| 0 <= k < n ==> '\0' <= #[trigger] s[k] <= '\u{7f}',
                0 <= i <= n,
                forall|k: int| 0 <= k < i ==> is_code_char(#[trigger] s[k]) || s[k] == '.',
                i > 0 ==> s[0] != '.',
                forall|k: int| 0 <= k < i - 1 ==> !(#[trigger] s[k] == '.' && s[k + 1] == '.'),
                after_dot == (i == 0 || s[i - 1] == '.'),
            decreases n - i,
        {
            let byte = bytes[i];
            let ghost c = s[i as int];
            assert(byte as int == c as int);
            if byte == 0x2e {
                if after_dot {
                    assert(!is_valid_code(s)) by {
                        if i > 0 {
                            assert(s[i - 1] == '.' && s[(i - 1) + 1] == '.');
                        }
                    }
                    return Err(DiagnosticCodeError);
                }
                after_dot = true;
            } else if is_code_byte(byte) {
                after_dot = false;
            } else {
                assert(!is_valid_code(s)) by {
                    assert(!(is_code_char(s[i as int]) || s[i as int] == '.'));
                }
                return Err(DiagnosticCodeError);
            }
            i = i + 1;
        }
        if after_dot {
            return Err(DiagnosticCodeError);
        }
        let owned = value.to_owned();
        Ok(DiagnosticCode(owned))
    }

    /// Returns the stable code.
    pub fn as_str(&self) -> (code: &str)
        ensures
            code@ == self@,
    {
        self.0.as_str()
    }
}

/// One deterministic segment locating a diagnostic in structured input.
#[derive(Clone, Debug, PartialEq, Eq, PartialOrd, Ord)]
pub enum DiagnosticPathSegment {
    /// A named field.
    Field(String),
    /// An element in an ordered collection.
    Index(u64),
    /// An opaque entity kind and deterministic local numeric ID.
    Entity {
        /// Stable lowercase entity kind.
        kind: String,
        /// Deterministic local entity ID.
        id: u64,
    },
}

/// A structured diagnostic returned across native, WASM, and service boundaries.
#[derive(Clone, Debug, PartialEq, Eq, PartialOrd, Ord)]
pub struct Diagnostic {
    severity: Severity,
    code: DiagnosticCode,
    message: String,
    path: Vec<DiagnosticPathSegment>,
    related: Vec<SemanticId>,
}

impl Diagnostic {
    /// The severity.
    pub closed spec fn spec_severity(&self) -> Severity {
        self.severity
    }

    /// The stable machine-readable code.
    pub closed spec fn spec_code(&self) -> DiagnosticCode {
        self.code
    }

    /// The human-readable explanation.
    pub closed spec fn spec_message(&self) -> Seq<char> {
        self.message@
    }

    /// The deterministic input path.
    pub closed spec fn spec_path(&self) -> Seq<DiagnosticPathSegment> {
        self.path@
    }

    /// The semantically related entities.
    pub closed spec fn spec_related(&self) -> Seq<SemanticId> {
        self.related@
    }

    /// Creates a diagnostic. Callers must supply deterministic path and related
    /// entity ordering.
    pub fn new(
        severity: Severity,
        code: DiagnosticCode,
        message: String,
        path: Vec<DiagnosticPathSegment>,
        related: Vec<SemanticId>,
    ) -> (diagnostic: Self)
        ensures
            diagnostic.spec_severity() == severity,
            diagnostic.spec_code() == code,
            diagnostic.spec_message() == message@,
            diagnostic.spec_path() == path@,
            diagnostic.spec_related() == related@,
    {
        Self { severity, code, message, path, related }
    }

    /// Returns severity.
    pub fn severity(&self) -> (severity: Severity)
        ensures
            severity == self.spec_severity(),
    {
        self.severity
    }

    /// Returns the stable machine-readable code.
    pub fn code(&self) -> (code: &DiagnosticCode)
        ensures
            *code == self.spec_code(),
    {
        &self.code
    }

    /// Returns the human-readable explanation.
    pub fn message(&self) -> (message: &str)
        ensures
            message@ == self.spec_message(),
    {
        self.message.as_str()
    }

    /// Returns the deterministic input path.
    pub fn path(&self) -> (path: &[DiagnosticPathSegment])
        ensures
            path@ == self.spec_path(),
    {
        self.path.as_slice()
    }

    /// Returns semantically related entities.
    pub fn related(&self) -> (related: &[SemanticId])
        ensures
            related@ == self.spec_related(),
    {
        self.related.as_slice()
    }
}

} // verus!
