use vstd::prelude::*;

use crate::text::{copy_string, owned, str_eq, utf8};

verus! {

/// The renderer protocol version this crate speaks.
pub const PROTOCOL_VERSION: u32 = 1;

/// The largest integer a JavaScript number holds exactly.
pub const JS_MAX_SAFE_INTEGER: u64 = 9_007_199_254_740_991;

/// One renderer mutation in the JSON protocol.
#[derive(Clone, Debug, PartialEq, Eq)]
pub enum FiberMutation {
    CreateElement { node: u64, tag: String },
    CreateText { node: u64, text: String },
    InsertBefore { parent: u64, child: u64, reference: Option<u64> },
    Remove { parent: u64, child: u64 },
    DestroyNode { node: u64 },
    SetAttribute { node: u64, name: String, value: Option<String> },
    AddEventListener { node: u64, listener: u64, name: String },
    RemoveEventListener { node: u64, listener: u64 },
    Flush { root: u64 },
}

/// Why a protocol message is rejected.
#[derive(Clone, Debug, PartialEq, Eq)]
pub enum ProtocolError {
    Json(String),
    UnsupportedVersion(u32),
    InvalidSuccessFlag,
    InvalidFailureFlag,
    ZeroFailureStatus,
    ZeroId(&'static str),
    UnsafeId(&'static str, u64),
    InvalidName(&'static str),
    InvalidEvent(String),
    MissingFlush,
    MultipleFlushes,
    FlushNotFinal,
}

/// A protocol error as plain values.
pub enum ProtocolErrorView {
    Json(Seq<char>),
    UnsupportedVersion(u32),
    InvalidSuccessFlag,
    InvalidFailureFlag,
    ZeroFailureStatus,
    ZeroId(Seq<char>),
    UnsafeId(Seq<char>, u64),
    InvalidName(Seq<char>),
    InvalidEvent(Seq<char>),
    MissingFlush,
    MultipleFlushes,
    FlushNotFinal,
}

impl View for ProtocolError {
    type V = ProtocolErrorView;

    open spec fn view(&self) -> ProtocolErrorView {
        match self {
            ProtocolError::Json(m) => ProtocolErrorView::Json(m@),
            ProtocolError::UnsupportedVersion(v) => ProtocolErrorView::UnsupportedVersion(*v),
            ProtocolError::InvalidSuccessFlag => ProtocolErrorView::InvalidSuccessFlag,
            ProtocolError::InvalidFailureFlag => ProtocolErrorView::InvalidFailureFlag,
            ProtocolError::ZeroFailureStatus => ProtocolErrorView::ZeroFailureStatus,
            ProtocolError::ZeroId(f) => ProtocolErrorView::ZeroId(f@),
            ProtocolError::UnsafeId(f, v) => ProtocolErrorView::UnsafeId(f@, *v),
            ProtocolError::InvalidName(f) => ProtocolErrorView::InvalidName(f@),
            ProtocolError::InvalidEvent(e) => ProtocolErrorView::InvalidEvent(e@),
            ProtocolError::MissingFlush => ProtocolErrorView::MissingFlush,
            ProtocolError::MultipleFlushes => ProtocolErrorView::MultipleFlushes,
            ProtocolError::FlushNotFinal => ProtocolErrorView::FlushNotFinal,
        }
    }
}

pub open spec fn err_view(r: Result<(), ProtocolError>) -> Option<ProtocolErrorView> {
    match r {
        Ok(()) => None,
        Err(e) => Some(e@),
    }
}

/// The error an identifier field is rejected with, if any.
pub open spec fn id_error(value: u64, field: Seq<char>) -> Option<ProtocolErrorView> {
    if value == 0 {
        Some(ProtocolErrorView::ZeroId(field))
    } else if value > JS_MAX_SAFE_INTEGER {
        Some(ProtocolErrorView::UnsafeId(field, value))
    } else {
        None
    }
}

/// Checks that an identifier is positive and exactly representable in JavaScript.
pub fn validate_id(value: u64, field: &'static str) -> (r: Result<(), ProtocolError>)
    ensures
        err_view(r) == id_error(value, field@),
{
    if value == 0 {
        Err(ProtocolError::ZeroId(field))
    } else if value > JS_MAX_SAFE_INTEGER {
        Err(ProtocolError::UnsafeId(field, value))
    } else {
        Ok(())
    }
}

pub open spec fn is_lower(b: u8) -> bool {
    97 <= b <= 122
}

pub open spec fn is_digit(b: u8) -> bool {
    48 <= b <= 57
}

/// A tag the renderer reserves for its own structure.
pub open spec fn reserved_tag(s: Seq<char>) -> bool {
    ||| s == "block"@
    ||| s == "component"@
    ||| s == "for"@
    ||| s == "if"@
    ||| s == "list"@
    ||| s == "list-container"@
    ||| s == "list-item"@
    ||| s == "none"@
    ||| s == "page"@
    ||| s == "raw-text"@
    ||| s == "waterfall"@
    ||| s == "wrapper"@
}

/// The bytes of an authored tag: a lowercase letter, then lowercase letters,
/// digits and hyphens.
pub open spec fn tag_bytes_ok(b: Seq<u8>) -> bool {
    forall|i: int|
        0 <= i < b.len() ==> if i == 0 {
            is_lower(#[trigger] b[i])
        } else {
            is_lower(b[i]) || is_digit(b[i]) || b[i] == 45
        }
}

/// An element tag that authors may use.
pub open spec fn valid_tag_spec(s: Seq<char>) -> bool {
    &&& utf8(s).len() <= 64
    &&& !reserved_tag(s)
    &&& s.len() != 0
    &&& tag_bytes_ok(utf8(s))
}

/// An attribute name that is not an object-model property.
pub open spec fn reserved_attribute(s: Seq<char>) -> bool {
    s == "constructor"@ || s == "prototype"@
}

/// The bytes of an attribute name: a lowercase letter, then lowercase
/// letters, digits and `_ . : -`.
pub open spec fn attribute_bytes_ok(b: Seq<u8>) -> bool {
    forall|i: int|
        0 <= i < b.len() ==> if i == 0 {
            is_lower(#[trigger] b[i])
        } else {
            is_lower(b[i]) || is_digit(b[i]) || b[i] == 95 || b[i] == 46 || b[i] == 58 || b[i]
                == 45
        }
}

pub open spec fn valid_attribute_name_spec(s: Seq<char>) -> bool {
    &&& utf8(s).len() <= 128
    &&& !reserved_attribute(s)
    &&& s.len() != 0
    &&& attribute_bytes_ok(utf8(s))
}

fn is_reserved_tag(name: &str) -> (r: bool)
    ensures
        r == reserved_tag(name@),
{
    str_eq(name, "block") || str_eq(name, "component") || str_eq(name, "for") || str_eq(name, "if")
        || str_eq(name, "list") || str_eq(name, "list-container") || str_eq(name, "list-item")
        || str_eq(name, "none") || str_eq(name, "page") || str_eq(name, "raw-text") || str_eq(
        name,
        "waterfall",
    ) || str_eq(name, "wrapper")
}

/// Whether `name` is an element tag that authors may use.
pub fn valid_tag(name: &str) -> (r: bool)
    ensures
        r == valid_tag_spec(name@),
{
    let bytes = name.as_bytes();
    if bytes.len() > 64 || is_reserved_tag(name) || name.is_empty() {
        return false;
    }
    let mut i: usize = 0;
    while i < bytes.len()
        invariant
            bytes@ == utf8(name@),
            i <= bytes@.len(),
            forall|j: int|
                0 <= j < i ==> if j == 0 {
                    is_lower(#[trigger] bytes@[j])
                } else {
                    is_lower(bytes@[j]) || is_digit(bytes@[j]) || bytes@[j] == 45
                },
        decreases bytes@.len() - i,
    {
        let b = bytes[i];
        let ok = if i == 0 {
            97 <= b && b <= 122
        } else {
            (97 <= b && b <= 122) || (48 <= b && b <= 57) || b == 45
        };
        if !ok {
            return false;
        }
        i = i + 1;
    }
    true
}

fn is_reserved_attribute(name: &str) -> (r: bool)
    ensures
        r == reserved_attribute(name@),
{
    str_eq(name, "constructor") || str_eq(name, "prototype")
}

/// Whether `name` is an attribute name that authors may use.
pub fn valid_attribute_name(name: &str) -> (r: bool)
    ensures
        r == valid_attribute_name_spec(name@),
{
    let bytes = name.as_bytes();
    if bytes.len() > 128 || is_reserved_attribute(name) || name.is_empty() {
        return false;
    }
    let mut i: usize = 0;
    while i < bytes.len()
        invariant
            bytes@ == utf8(name@),
            i <= bytes@.len(),
            forall|j: int|
                0 <= j < i ==> if j == 0 {
                    is_lower(#[trigger] bytes@[j])
                } else {
                    is_lower(bytes@[j]) || is_digit(bytes@[j]) || bytes@[j] == 95 || bytes@[j]
                        == 46 || bytes@[j] == 58 || bytes@[j] == 45
                },
        decreases bytes@.len() - i,
    {
        let b = bytes[i];
        let ok = if i == 0 {
            97 <= b && b <= 122
        } else {
            (97 <= b && b <= 122) || (48 <= b && b <= 57) || b == 95 || b == 46 || b == 58 || b
                == 45
        };
        if !ok {
            return false;
        }
        i = i + 1;
    }
    true
}

/// The first error of `a` and then `b`.
pub open spec fn first_error(
    a: Option<ProtocolErrorView>,
    b: Option<ProtocolErrorView>,
) -> Option<ProtocolErrorView> {
    if a is Some {
        a
    } else {
        b
    }
}

/// The error one mutation is rejected with, if any, in the order its fields
/// are checked.
pub open spec fn mutation_error(m: FiberMutation) -> Option<ProtocolErrorView> {
    match m {
        FiberMutation::CreateElement { node, tag } => first_error(
            id_error(node, "node"@),
            if valid_tag_spec(tag@) {
                None
            } else {
                Some(ProtocolErrorView::InvalidName("tag"@))
            },
        ),
        FiberMutation::CreateText { node, .. } => id_error(node, "node"@),
        FiberMutation::DestroyNode { node } => id_error(node, "node"@),
        FiberMutation::InsertBefore { parent, child, reference } => first_error(
            id_error(parent, "parent"@),
            first_error(
                id_error(child, "child"@),
                match reference {
                    Some(r) => id_error(r, "reference"@),
                    None => None,
                },
            ),
        ),
        FiberMutation::Remove { parent, child } => first_error(
            id_error(parent, "parent"@),
            id_error(child, "child"@),
        ),
        FiberMutation::SetAttribute { node, name, .. } => first_error(
            id_error(node, "node"@),
            if valid_attribute_name_spec(name@) {
                None
            } else {
                Some(ProtocolErrorView::InvalidName("attribute"@))
            },
        ),
        FiberMutation::AddEventListener { node, listener, name } => first_error(
            id_error(node, "node"@),
            first_error(
                id_error(listener, "listener"@),
                if name@ == "tap"@ {
                    None
                } else {
                    Some(ProtocolErrorView::InvalidEvent(name@))
                },
            ),
        ),
        FiberMutation::RemoveEventListener { node, listener } => first_error(
            id_error(node, "node"@),
            id_error(listener, "listener"@),
        ),
        FiberMutation::Flush { root } => id_error(root, "root"@),
    }
}

impl FiberMutation {
    /// Checks the identifiers and names of one mutation.
    pub fn validate(&self) -> (r: Result<(), ProtocolError>)
        ensures
            err_view(r) == mutation_error(*self),
    {
        match self {
            FiberMutation::CreateElement { node, tag } => {
                match validate_id(*node, "node") {
                    Ok(()) => {},
                    Err(e) => return Err(e),
                }
                if !valid_tag(tag.as_str()) {
                    return Err(ProtocolError::InvalidName("tag"));
                }
            },
            FiberMutation::CreateText { node, .. } => {
                match validate_id(*node, "node") {
                    Ok(()) => {},
                    Err(e) => return Err(e),
                }
            },
            FiberMutation::DestroyNode { node } => {
                match validate_id(*node, "node") {
                    Ok(()) => {},
                    Err(e) => return Err(e),
                }
            },
            FiberMutation::InsertBefore { parent, child, reference } => {
                match validate_id(*parent, "parent") {
                    Ok(()) => {},
                    Err(e) => return Err(e),
                }
                match validate_id(*child, "child") {
                    Ok(()) => {},
                    Err(e) => return Err(e),
                }
                match reference {
                    Some(r) => {
                        match validate_id(*r, "reference") {
                            Ok(()) => {},
                            Err(e) => return Err(e),
                        }
                    },
                    None => {},
                }
            },
            FiberMutation::Remove { parent, child } => {
                match validate_id(*parent, "parent") {
                    Ok(()) => {},
                    Err(e) => return Err(e),
                }
                match validate_id(*child, "child") {
                    Ok(()) => {},
                    Err(e) => return Err(e),
                }
            },
            FiberMutation::SetAttribute { node, name, .. } => {
                match validate_id(*node, "node") {
                    Ok(()) => {},
                    Err(e) => return Err(e),
                }
                if !valid_attribute_name(name.as_str()) {
                    return Err(ProtocolError::InvalidName("attribute"));
                }
            },
            FiberMutation::AddEventListener { node, listener, name } => {
                match validate_id(*node, "node") {
                    Ok(()) => {},
                    Err(e) => return Err(e),
                }
                match validate_id(*listener, "listener") {
                    Ok(()) => {},
                    Err(e) => return Err(e),
                }
                if !str_eq(name.as_str(), "tap") {
                    return Err(ProtocolError::InvalidEvent(copy_string(name)));
                }
            },
            FiberMutation::RemoveEventListener { node, listener } => {
                match validate_id(*node, "node") {
                    Ok(()) => {},
                    Err(e) => return Err(e),
                }
                match validate_id(*listener, "listener") {
                    Ok(()) => {},
                    Err(e) => return Err(e),
                }
            },
            FiberMutation::Flush { root } => {
                match validate_id(*root, "root") {
                    Ok(()) => {},
                    Err(e) => return Err(e),
                }
            },
        }
        Ok(())
    }
}


/// A mutation is a flush boundary.
pub open spec fn is_flush(m: FiberMutation) -> bool {
    m is Flush
}

/// The error a list of mutations is rejected with from position `i` on: the
/// first mutation that is invalid or a flush before the end, else a missing
/// final flush.
pub open spec fn operations_error_from(ops: Seq<FiberMutation>, i: int) -> Option<ProtocolErrorView>
    decreases ops.len() - i,
{
    if i >= ops.len() {
        if is_flush(ops.last()) {
            None
        } else {
            Some(ProtocolErrorView::MissingFlush)
        }
    } else if mutation_error(ops[i]) is Some {
        mutation_error(ops[i])
    } else if is_flush(ops[i]) && i != ops.len() - 1 {
        Some(ProtocolErrorView::FlushNotFinal)
    } else {
        operations_error_from(ops, i + 1)
    }
}

/// The error a mutation list is rejected with: an empty list only where it is
/// allowed, otherwise valid mutations with exactly one flush, at the end.
pub open spec fn operations_error(ops: Seq<FiberMutation>, allow_empty: bool) -> Option<
    ProtocolErrorView,
> {
    if ops.len() == 0 {
        if allow_empty {
            None
        } else {
            Some(ProtocolErrorView::MissingFlush)
        }
    } else {
        operations_error_from(ops, 0)
    }
}

/// Checks every mutation and the single final flush.
pub fn validate_operations(operations: &[FiberMutation], allow_empty: bool) -> (r: Result<
    (),
    ProtocolError,
>)
    ensures
        err_view(r) == operations_error(operations@, allow_empty),
{
    if operations.len() == 0 {
        return if allow_empty {
            Ok(())
        } else {
            Err(ProtocolError::MissingFlush)
        };
    }
    let last = operations.len() - 1;
    let mut flush_count: usize = 0;
    let mut index: usize = 0;
    while index < operations.len()
        invariant
            operations@.len() > 0,
            last == operations@.len() - 1,
            index <= operations@.len(),
            operations_error_from(operations@, 0) == operations_error_from(operations@, index as int),
            flush_count == (if index == operations@.len() && is_flush(operations@.last()) {
                1usize
            } else {
                0usize
            }),
        decreases operations@.len() - index,
    {
        let operation = &operations[index];
        match operation.validate() {
            Ok(()) => {},
            Err(e) => return Err(e),
        }
        let flush = match operation {
            FiberMutation::Flush { .. } => true,
            _ => false,
        };
        if flush {
            flush_count = flush_count + 1;
            if index != last {
                return Err(ProtocolError::FlushNotFinal);
            }
        }
        index = index + 1;
    }
    match flush_count {
        0 => Err(ProtocolError::MissingFlush),
        1 => Ok(()),
        _ => Err(ProtocolError::MultipleFlushes),
    }
}

pub open spec fn version_error(version: u32) -> Option<ProtocolErrorView> {
    if version == PROTOCOL_VERSION {
        None
    } else {
        Some(ProtocolErrorView::UnsupportedVersion(version))
    }
}

fn validate_version(version: u32) -> (r: Result<(), ProtocolError>)
    ensures
        err_view(r) == version_error(version),
{
    if version == PROTOCOL_VERSION {
        Ok(())
    } else {
        Err(ProtocolError::UnsupportedVersion(version))
    }
}

/// A successful mutation response.
#[derive(Clone, Debug, PartialEq, Eq)]
pub struct SuccessResponse {
    pub version: u32,
    pub ok: bool,
    pub operations: Vec<FiberMutation>,
}

/// A failed mutation response, with the mutations applied before the failure.
#[derive(Clone, Debug, PartialEq, Eq)]
pub struct FailureResponse {
    pub version: u32,
    pub ok: bool,
    pub status: u32,
    pub error: String,
    pub operations: Vec<FiberMutation>,
}

/// Either kind of response.
#[derive(Clone, Debug, PartialEq, Eq)]
pub enum ProtocolResponse {
    Success(SuccessResponse),
    Failure(FailureResponse),
}

pub open spec fn success_error(r: SuccessResponse) -> Option<ProtocolErrorView> {
    if version_error(r.version) is Some {
        version_error(r.version)
    } else if !r.ok {
        Some(ProtocolErrorView::InvalidSuccessFlag)
    } else {
        operations_error(r.operations@, false)
    }
}

pub open spec fn failure_error(r: FailureResponse) -> Option<ProtocolErrorView> {
    if version_error(r.version) is Some {
        version_error(r.version)
    } else if r.ok {
        Some(ProtocolErrorView::InvalidFailureFlag)
    } else if r.status == 0 {
        Some(ProtocolErrorView::ZeroFailureStatus)
    } else {
        operations_error(r.operations@, true)
    }
}

pub open spec fn response_error(r: ProtocolResponse) -> Option<ProtocolErrorView> {
    match r {
        ProtocolResponse::Success(s) => success_error(s),
        ProtocolResponse::Failure(f) => failure_error(f),
    }
}

impl SuccessResponse {
    /// A current-version success response carrying `operations`, if they validate.
    pub fn new(operations: Vec<FiberMutation>) -> (r: Result<SuccessResponse, ProtocolError>)
        ensures
            operations_error(operations@, false) is None ==> (r matches Ok(s) && s.version
                == PROTOCOL_VERSION && s.ok && s.operations@ == operations@),
            operations_error(operations@, false) matches Some(e) ==> (r matches Err(err) && err@
                == e),
    {
        let response = SuccessResponse { version: PROTOCOL_VERSION, ok: true, operations };
        match response.validate() {
            Ok(()) => Ok(response),
            Err(e) => Err(e),
        }
    }

    pub fn validate(&self) -> (r: Result<(), ProtocolError>)
        ensures
            err_view(r) == success_error(*self),
    {
        match validate_version(self.version) {
            Ok(()) => {},
            Err(e) => return Err(e),
        }
        if !self.ok {
            return Err(ProtocolError::InvalidSuccessFlag);
        }
        validate_operations(self.operations.as_slice(), false)
    }
}

impl FailureResponse {
    /// A current-version failure response, if `status` is nonzero and the
    /// operations validate.
    pub fn new(status: u32, error: &str, operations: Vec<FiberMutation>) -> (r: Result<
        FailureResponse,
        ProtocolError,
    >)
        ensures
            ({
                let e = if status == 0 {
                    Some(ProtocolErrorView::ZeroFailureStatus)
                } else {
                    operations_error(operations@, true)
                };
                &&& e is None ==> (r matches Ok(f) && f.version == PROTOCOL_VERSION && !f.ok
                    && f.status == status && f.error@ == error@ && f.operations@ == operations@)
                &&& e matches Some(v) ==> (r matches Err(err) && err@ == v)
            }),
    {
        let response = FailureResponse {
            version: PROTOCOL_VERSION,
            ok: false,
            status,
            error: owned(error),
            operations,
        };
        match response.validate() {
            Ok(()) => Ok(response),
            Err(e) => Err(e),
        }
    }

    pub fn validate(&self) -> (r: Result<(), ProtocolError>)
        ensures
            err_view(r) == failure_error(*self),
    {
        match validate_version(self.version) {
            Ok(()) => {},
            Err(e) => return Err(e),
        }
        if self.ok {
            return Err(ProtocolError::InvalidFailureFlag);
        }
        if self.status == 0 {
            return Err(ProtocolError::ZeroFailureStatus);
        }
        validate_operations(self.operations.as_slice(), true)
    }
}

impl ProtocolResponse {
    pub fn success(operations: Vec<FiberMutation>) -> (r: Result<ProtocolResponse, ProtocolError>)
        ensures
            operations_error(operations@, false) is None ==> (r matches Ok(
                ProtocolResponse::Success(s),
            ) && s.version == PROTOCOL_VERSION && s.ok && s.operations@ == operations@),
            operations_error(operations@, false) matches Some(e) ==> (r matches Err(err) && err@
                == e),
    {
        match SuccessResponse::new(operations) {
            Ok(s) => Ok(ProtocolResponse::Success(s)),
            Err(e) => Err(e),
        }
    }

    pub fn failure(status: u32, error: &str, operations: Vec<FiberMutation>) -> (r: Result<
        ProtocolResponse,
        ProtocolError,
    >)
        ensures
            ({
                let e = if status == 0 {
                    Some(ProtocolErrorView::ZeroFailureStatus)
                } else {
                    operations_error(operations@, true)
                };
                &&& e is None ==> (r matches Ok(ProtocolResponse::Failure(f)) && f.version
                    == PROTOCOL_VERSION && !f.ok && f.status == status && f.error@ == error@
                    && f.operations@ == operations@)
                &&& e matches Some(v) ==> (r matches Err(err) && err@ == v)
            }),
    {
        match FailureResponse::new(status, error, operations) {
            Ok(f) => Ok(ProtocolResponse::Failure(f)),
            Err(e) => Err(e),
        }
    }

    pub fn validate(&self) -> (r: Result<(), ProtocolError>)
        ensures
            err_view(r) == response_error(*self),
    {
        match self {
            ProtocolResponse::Success(s) => s.validate(),
            ProtocolResponse::Failure(f) => f.validate(),
        }
    }
}

/// An accepted attribute name is made of lowercase ASCII letters, digits
/// and `_ . : -` only, starting with a lowercase letter, so no name with an
/// uppercase letter (such as `fontSize`) is accepted; and every nonempty name
/// of at most 128 such bytes that is not `constructor` or `prototype` is.
pub proof fn lemma_attribute_names_are_lowercase(s: Seq<char>)
    ensures
        valid_attribute_name_spec(s) ==> 97 <= utf8(s)[0] <= 122,
        valid_attribute_name_spec(s) ==> forall|i: int|
            0 <= i < utf8(s).len() ==> ({
                let b = #[trigger] utf8(s)[i];
                (97 <= b <= 122) || (48 <= b <= 57) || b == 95 || b == 46 || b == 58 || b == 45
            }),
        valid_attribute_name_spec(s) ==> forall|i: int|
            0 <= i < utf8(s).len() ==> !(65 <= #[trigger] utf8(s)[i] <= 90),
        (s.len() != 0 && utf8(s).len() <= 128 && s != "constructor"@ && s != "prototype"@ && 97
            <= utf8(s)[0] <= 122 && forall|i: int|
            0 <= i < utf8(s).len() ==> ({
                let b = #[trigger] utf8(s)[i];
                (97 <= b <= 122) || (48 <= b <= 57) || b == 95 || b == 46 || b == 58 || b == 45
            })) ==> valid_attribute_name_spec(s),
{
    if valid_attribute_name_spec(s) {
        assert(utf8(s).len() > 0) by {
            crate::text::lemma_utf8_nonempty(s);
        }
        assert(is_lower(utf8(s)[0]));
        assert forall|i: int| 0 <= i < utf8(s).len() implies ({
            let b = #[trigger] utf8(s)[i];
            (97 <= b <= 122) || (48 <= b <= 57) || b == 95 || b == 46 || b == 58 || b == 45
        }) by {
            assert(attribute_bytes_ok(utf8(s)));
        }
    }
}

/// An accepted element tag is made of lowercase ASCII letters, digits and
/// `-` only, starting with a lowercase letter; no tag with an uppercase
/// letter is accepted.
pub proof fn lemma_tags_are_lowercase(s: Seq<char>)
    ensures
        valid_tag_spec(s) ==> 97 <= utf8(s)[0] <= 122,
        valid_tag_spec(s) ==> forall|i: int|
            0 <= i < utf8(s).len() ==> ({
                let b = #[trigger] utf8(s)[i];
                (97 <= b <= 122) || (48 <= b <= 57) || b == 45
            }),
        valid_tag_spec(s) ==> forall|i: int| 0 <= i < utf8(s).len() ==> !(65 <= #[trigger] utf8(s)[i] <= 90),
{
    if valid_tag_spec(s) {
        assert(utf8(s).len() > 0) by {
            crate::text::lemma_utf8_nonempty(s);
        }
        assert(is_lower(utf8(s)[0]));
    }
}

} // verus!
