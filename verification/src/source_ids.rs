use vstd::prelude::*;
use vstd::string::{StrSliceExecFns, StringExecFns};

use crate::text::{
    chars_of, decimal_text, digits_value, is_u64_text, lemma_decimal_text_is_u64_text, push_decimal,
    unsigned_digits,
};

verus! {

/// An error from reading an unsigned integer out of text.
#[verifier::external_type_specification]
#[verifier::external_body]
pub struct ExParseIntError(std::num::ParseIntError);

/// Copies an integer parse error. Nothing is stated of the copy: the error
/// is opaque here and only carried along.
pub assume_specification[ <std::num::ParseIntError as Clone>::clone ](
    error: &std::num::ParseIntError,
) -> std::num::ParseIntError;

/// The two characters `::` stand at `i`.
pub open spec fn separator_at(s: Seq<char>, i: int) -> bool {
    0 <= i && i + 1 < s.len() && s[i] == ':' && s[i + 1] == ':'
}

/// Whether `s` holds the separator `::` anywhere.
pub open spec fn contains_separator(s: Seq<char>) -> bool {
    exists|i: int| separator_at(s, i)
}

/// The first separator of `s` stands at `i`.
pub open spec fn first_separator(s: Seq<char>, i: int) -> bool {
    &&& separator_at(s, i)
    &&& forall|j: int| 0 <= j < i ==> !separator_at(s, j)
}

/// The text before and after the first separator of `s`, if it has one.
pub open spec fn scoped_parts(s: Seq<char>) -> Option<(Seq<char>, Seq<char>)> {
    if contains_separator(s) {
        let i = choose|i: int| first_separator(s, i);
        Some((s.take(i), s.skip(i + 2)))
    } else {
        None
    }
}

proof fn lemma_first_separator_unique(s: Seq<char>, i: int, j: int)
    requires
        first_separator(s, i),
        first_separator(s, j),
    ensures
        i == j,
{
    if i < j {
        assert(!separator_at(s, i));
    } else if j < i {
        assert(!separator_at(s, j));
    }
}

/// The position of the first separator in `chars`.
fn find_separator(chars: &Vec<char>) -> (r: Option<usize>)
    ensures
        r is None <==> !contains_separator(chars@),
        r matches Some(i) ==> first_separator(chars@, i as int),
{
    let mut i: usize = 0;
    while i < chars.len() && i + 1 < chars.len()
        invariant
            i <= chars.len(),
            forall|j: int| 0 <= j < i ==> !separator_at(chars@, j),
        decreases chars.len() - i,
    {
        if chars[i] == ':' && chars[i + 1] == ':' {
            assert(separator_at(chars@, i as int));
            return Some(i);
        }
        i += 1;
    }
    assert forall|j: int| !separator_at(chars@, j) by {
        if 0 <= j < i {
        }
    }
    None
}

/// Splits `value` at its first separator.
fn split_at_separator<'a>(value: &'a str) -> (r: Option<(&'a str, &'a str)>)
    ensures
        match scoped_parts(value@) {
            None => r is None,
            Some((resource, local_id)) => r matches Some((a, b)) && a@ == resource && b@
                == local_id,
        },
{
    let chars = chars_of(value);
    match find_separator(&chars) {
        None => None,
        Some(i) => {
            proof {
                let k = choose|k: int| first_separator(value@, k);
                lemma_first_separator_unique(value@, i as int, k);
            }
            let n = chars.len();
            assert(separator_at(chars@, i as int));
            let resource = value.substring_char(0, i);
            let local_id = value.substring_char(i + 2, n);
            assert(local_id@ =~= value@.skip(i + 2));
            assert(resource@ =~= value@.take(i as int));
            Some((resource, local_id))
        },
    }
}

/// Why text is not a source-scoped id.
#[derive(Clone, Debug, PartialEq, Eq)]
pub enum SourceScopedIdParseError {
    MissingSeparator,
    EmptyResource,
    EmptyLocalId,
    InvalidInstanceId(std::num::ParseIntError),
    InvalidDefinitionId(std::num::ParseIntError),
}

/// Reads a `u64` from decimal text.
///
/// Calls `str::parse::<u64>`. Its documentation: the text is an optional
/// `+` followed by one or more ASCII digits, nothing else, and the value must
/// fit; any other text is an error. The contract says that, and the value
/// read. It does not say which error kind comes back.
#[verifier::external_body]
fn parse_u64(text: &str) -> (r: Result<u64, std::num::ParseIntError>)
    ensures
        r is Ok <==> is_u64_text(text@),
        r matches Ok(v) ==> v == digits_value(unsigned_digits(text@)),
{
    text.parse::<u64>()
}

/// The message of an integer parse error.
///
/// Calls `ParseIntError`'s `Display` through `to_string`. The text depends
/// on the error's kind, which is not visible here, so nothing is stated of
/// it.
#[verifier::external_body]
fn parse_int_error_text(error: &std::num::ParseIntError) -> String {
    error.to_string()
}

impl SourceScopedIdParseError {
    /// The message for this error. For a rejected number it is a fixed
    /// prefix followed by the integer parser's own message.
    pub fn message(&self) -> (m: String)
        ensures
            match self {
                SourceScopedIdParseError::MissingSeparator => m@
                    == "source-scoped id must be formatted as `resource::local_id`"@,
                SourceScopedIdParseError::EmptyResource => m@
                    == "source-scoped id resource must not be empty"@,
                SourceScopedIdParseError::EmptyLocalId => m@
                    == "source-scoped id local id must not be empty"@,
                SourceScopedIdParseError::InvalidInstanceId(_) => {
                    let prefix = "invalid source-scoped instance id: "@;
                    m@.len() >= prefix.len() && m@.take(prefix.len() as int) == prefix
                },
                SourceScopedIdParseError::InvalidDefinitionId(_) => {
                    let prefix = "invalid source-scoped definition id: "@;
                    m@.len() >= prefix.len() && m@.take(prefix.len() as int) == prefix
                },
            },
    {
        match self {
            SourceScopedIdParseError::MissingSeparator => String::from_str(
                "source-scoped id must be formatted as `resource::local_id`",
            ),
            SourceScopedIdParseError::EmptyResource => String::from_str(
                "source-scoped id resource must not be empty",
            ),
            SourceScopedIdParseError::EmptyLocalId => String::from_str(
                "source-scoped id local id must not be empty",
            ),
            SourceScopedIdParseError::InvalidInstanceId(error) => {
                let mut m = String::from_str("invalid source-scoped instance id: ");
                let ghost prefix = m@;
                let detail = parse_int_error_text(error);
                m.append(detail.as_str());
                assert(m@.take(prefix.len() as int) =~= prefix);
                m
            },
            SourceScopedIdParseError::InvalidDefinitionId(error) => {
                let mut m = String::from_str("invalid source-scoped definition id: ");
                let ghost prefix = m@;
                let detail = parse_int_error_text(error);
                m.append(detail.as_str());
                assert(m@.take(prefix.len() as int) =~= prefix);
                m
            },
        }
    }
}

/// What checking a resource and a local id gives: the first empty part is
/// the error.
pub open spec fn parts_check(resource: Seq<char>, local_id: Seq<char>) -> Result<
    (),
    SourceScopedIdParseError,
> {
    if resource.len() == 0 {
        Err(SourceScopedIdParseError::EmptyResource)
    } else if local_id.len() == 0 {
        Err(SourceScopedIdParseError::EmptyLocalId)
    } else {
        Ok(())
    }
}

/// Checks that neither part of a source-scoped id is empty.
pub fn validate_source_scoped_parts(resource: &str, local_id: &str) -> (r: Result<
    (),
    SourceScopedIdParseError,
>)
    ensures
        r == parts_check(resource@, local_id@),
{
    if resource.is_empty() {
        return Err(SourceScopedIdParseError::EmptyResource);
    }
    if local_id.is_empty() {
        return Err(SourceScopedIdParseError::EmptyLocalId);
    }
    Ok(())
}

/// Splits a source-scoped id at its first separator and checks its parts.
pub fn parse_source_scoped_parts<'a>(value: &'a str) -> (r: Result<
    (&'a str, &'a str),
    SourceScopedIdParseError,
>)
    ensures
        match scoped_parts(value@) {
            None => r == Err::<(&str, &str), _>(SourceScopedIdParseError::MissingSeparator),
            Some((resource, local_id)) => match parts_check(resource, local_id) {
                Err(e) => r == Err::<(&str, &str), _>(e),
                Ok(_) => r matches Ok((a, b)) && a@ == resource && b@ == local_id,
            },
        },
{
    match split_at_separator(value) {
        None => Err(SourceScopedIdParseError::MissingSeparator),
        Some((resource, local_id)) => {
            match validate_source_scoped_parts(resource, local_id) {
                Err(e) => Err(e),
                Ok(()) => Ok((resource, local_id)),
            }
        },
    }
}

/// The separator between a resource and a local id.
pub open spec fn separator() -> Seq<char> {
    seq![':', ':']
}

/// The text of a source-scoped id: resource, separator, local id.
pub open spec fn scoped_text(resource: Seq<char>, local_id: Seq<char>) -> Seq<char> {
    resource + separator() + local_id
}

/// A resource that can scope ids: nonempty, without the separator, and not
/// ending in `:` (which would merge with the separator).
pub open spec fn is_scoping_resource(resource: Seq<char>) -> bool {
    &&& resource.len() > 0
    &&& !contains_separator(resource)
    &&& resource.last() != ':'
}

/// `resource::local_id` as a string.
fn join_scoped(resource: &str, local_id: &str) -> (s: String)
    ensures
        s@ == scoped_text(resource@, local_id@),
{
    let mut s = String::from_str(resource);
    proof {
        reveal_strlit("::");
    }
    s.append("::");
    s.append(local_id);
    assert(s@ =~= scoped_text(resource@, local_id@));
    s
}

/// `resource::local_id` with the local id in decimal.
fn join_scoped_number(resource: &str, local_id: u64) -> (s: String)
    ensures
        s@ == scoped_text(resource@, decimal_text(local_id as nat)),
{
    let mut s = String::from_str(resource);
    proof {
        reveal_strlit("::");
    }
    s.append("::");
    push_decimal(&mut s, local_id);
    assert(s@ =~= scoped_text(resource@, decimal_text(local_id as nat)));
    s
}

/// Scoping round trip: the text of a scoped id splits back into the
/// resource and the local id, whatever the local id holds, when the
/// resource can scope ids.
pub proof fn lemma_scoped_text_round_trip(resource: Seq<char>, local_id: Seq<char>)
    requires
        is_scoping_resource(resource),
    ensures
        scoped_parts(scoped_text(resource, local_id)) == Some((resource, local_id)),
{
    let s = scoped_text(resource, local_id);
    let n = resource.len() as int;
    assert(separator_at(s, n));
    assert forall|j: int| 0 <= j < n implies !separator_at(s, j) by {
        if j + 1 < n {
            assert(s[j] == resource[j] && s[j + 1] == resource[j + 1]);
            assert(!separator_at(resource, j));
        } else {
            assert(s[j] == resource.last());
        }
    }
    assert(first_separator(s, n));
    let k = choose|k: int| first_separator(s, k);
    lemma_first_separator_unique(s, n, k);
    assert(s.take(n) =~= resource);
    assert(s.skip(n + 2) =~= local_id);
}

/// Scoping keeps ids apart: two scoped ids with scoping resources have the
/// same text only when both their resources and their local ids agree, so
/// equal local ids of different resources never collide.
pub proof fn lemma_scoped_text_injective(
    resource_a: Seq<char>,
    local_a: Seq<char>,
    resource_b: Seq<char>,
    local_b: Seq<char>,
)
    requires
        is_scoping_resource(resource_a),
        is_scoping_resource(resource_b),
    ensures
        scoped_text(resource_a, local_a) == scoped_text(resource_b, local_b) <==> (resource_a
            == resource_b && local_a == local_b),
{
    lemma_scoped_text_round_trip(resource_a, local_a);
    lemma_scoped_text_round_trip(resource_b, local_b);
}

/// A semantic element id qualified by the resource it came from.
#[derive(Clone, Debug, PartialEq, Eq, PartialOrd, Ord, Hash)]
pub struct SourceScopedSemanticElementId {
    pub resource: String,
    pub local_id: String,
}

impl SourceScopedSemanticElementId {
    pub fn new(resource: &str, local_id: &str) -> (id: Self)
        ensures
            id.resource@ == resource@,
            id.local_id@ == local_id@,
    {
        SourceScopedSemanticElementId {
            resource: String::from_str(resource),
            local_id: String::from_str(local_id),
        }
    }

    pub fn resource(&self) -> (r: &str)
        ensures
            r@ == self.resource@,
    {
        self.resource.as_str()
    }

    pub fn local_id(&self) -> (r: &str)
        ensures
            r@ == self.local_id@,
    {
        self.local_id.as_str()
    }

    /// Checks that neither part is empty.
    pub fn validate(&self) -> (r: Result<(), SourceScopedIdParseError>)
        ensures
            r == parts_check(self.resource@, self.local_id@),
    {
        validate_source_scoped_parts(self.resource.as_str(), self.local_id.as_str())
    }

    /// The id as text: `resource::local_id`.
    pub fn to_string(&self) -> (s: String)
        ensures
            s@ == scoped_text(self.resource@, self.local_id@),
    {
        join_scoped(self.resource.as_str(), self.local_id.as_str())
    }

    /// Reads an id from `resource::local_id`, splitting at the first
    /// separator.
    pub fn parse(value: &str) -> (r: Result<Self, SourceScopedIdParseError>)
        ensures
            match scoped_parts(value@) {
                None => r == Err::<Self, _>(SourceScopedIdParseError::MissingSeparator),
                Some((resource, local_id)) => match parts_check(resource, local_id) {
                    Err(e) => r == Err::<Self, _>(e),
                    Ok(_) => r matches Ok(id) && id.resource@ == resource && id.local_id@
                        == local_id,
                },
            },
    {
        match parse_source_scoped_parts(value) {
            Err(e) => Err(e),
            Ok((resource, local_id)) => Ok(SourceScopedSemanticElementId::new(resource, local_id)),
        }
    }
}

impl std::str::FromStr for SourceScopedSemanticElementId {
    type Err = SourceScopedIdParseError;

    fn from_str(value: &str) -> (r: Result<SourceScopedSemanticElementId, SourceScopedIdParseError>)
        ensures
            match scoped_parts(value@) {
                None => r == Err::<SourceScopedSemanticElementId, _>(
                    SourceScopedIdParseError::MissingSeparator,
                ),
                Some((resource, local_id)) => match parts_check(resource, local_id) {
                    Err(e) => r == Err::<SourceScopedSemanticElementId, _>(e),
                    Ok(_) => r matches Ok(id) && id.resource@ == resource && id.local_id@
                        == local_id,
                },
            },
    {
        SourceScopedSemanticElementId::parse(value)
    }
}

/// What reading a numbered scoped id from `value` gives: the resource and
/// the number, or `None` when the text is not such an id.
pub open spec fn numbered_id_outcome(value: Seq<char>) -> Option<(Seq<char>, u64)> {
    match scoped_parts(value) {
        Some((resource, local_id)) => if parts_check(resource, local_id) is Ok && is_u64_text(
            local_id,
        ) {
            Some((resource, digits_value(unsigned_digits(local_id)) as u64))
        } else {
            None
        },
        None => None,
    }
}

/// Whether reading `value` as a numbered scoped id fails on the number
/// alone: the id is well formed but its local id is not a `u64`.
pub open spec fn number_rejected(value: Seq<char>) -> bool {
    match scoped_parts(value) {
        Some((resource, local_id)) => parts_check(resource, local_id) is Ok && !is_u64_text(
            local_id,
        ),
        None => false,
    }
}

/// The message that reading `value` as a numbered scoped id fails with;
/// for a rejected number, the part of it before the integer parser's own
/// message. `instance` picks the wording for instance ids.
pub open spec fn numbered_id_error_text(value: Seq<char>, instance: bool) -> Seq<char> {
    match scoped_parts(value) {
        None => "source-scoped id must be formatted as `resource::local_id`"@,
        Some((resource, local_id)) => if resource.len() == 0 {
            "source-scoped id resource must not be empty"@
        } else if local_id.len() == 0 {
            "source-scoped id local id must not be empty"@
        } else if instance {
            "invalid source-scoped instance id: "@
        } else {
            "invalid source-scoped definition id: "@
        },
    }
}

/// Whether `message` is the message that reading `value` fails with: that
/// text exactly, or, for a rejected number, that text followed by the
/// integer parser's message.
pub open spec fn is_numbered_id_error(message: Seq<char>, value: Seq<char>, instance: bool) -> bool {
    let text = numbered_id_error_text(value, instance);
    if number_rejected(value) {
        message.len() >= text.len() && message.take(text.len() as int) == text
    } else {
        message == text
    }
}

/// Numbered id round trip: the text of a numbered scoped id reads back as
/// the same resource and number when the resource can scope ids.
pub proof fn lemma_numbered_text_round_trip(resource: Seq<char>, local_id: u64)
    requires
        is_scoping_resource(resource),
    ensures
        numbered_id_outcome(scoped_text(resource, decimal_text(local_id as nat))) == Some(
            (resource, local_id),
        ),
{
    lemma_scoped_text_round_trip(resource, decimal_text(local_id as nat));
    lemma_decimal_text_is_u64_text(local_id);
}

/// Splits and reads a numbered scoped id; a local id that is not a `u64`
/// gives the instance error when `instance` holds, else the definition
/// error.
fn parse_numbered(value: &str, instance: bool) -> (r: Result<
    (&str, u64),
    SourceScopedIdParseError,
>)
    ensures
        match scoped_parts(value@) {
            None => r == Err::<(&str, u64), _>(SourceScopedIdParseError::MissingSeparator),
            Some((resource, local_id)) => match parts_check(resource, local_id) {
                Err(e) => r == Err::<(&str, u64), _>(e),
                Ok(_) => if is_u64_text(local_id) {
                    r matches Ok((a, v)) && a@ == resource && v == digits_value(
                        unsigned_digits(local_id),
                    )
                } else if instance {
                    r matches Err(SourceScopedIdParseError::InvalidInstanceId(_))
                } else {
                    r matches Err(SourceScopedIdParseError::InvalidDefinitionId(_))
                },
            },
        },
{
    match parse_source_scoped_parts(value) {
        Err(e) => Err(e),
        Ok((resource, local_id)) => match parse_u64(local_id) {
            Ok(v) => Ok((resource, v)),
            Err(e) => if instance {
                Err(SourceScopedIdParseError::InvalidInstanceId(e))
            } else {
                Err(SourceScopedIdParseError::InvalidDefinitionId(e))
            },
        },
    }
}

/// A geometry instance id qualified by the resource it came from.
#[derive(Clone, Debug, PartialEq, Eq, PartialOrd, Ord, Hash)]
pub struct SourceScopedGeometryInstanceId {
    pub resource: String,
    pub local_id: u64,
}

impl SourceScopedGeometryInstanceId {
    pub fn new(resource: &str, local_id: u64) -> (id: Self)
        ensures
            id.resource@ == resource@,
            id.local_id == local_id,
    {
        SourceScopedGeometryInstanceId { resource: String::from_str(resource), local_id }
    }

    pub fn resource(&self) -> (r: &str)
        ensures
            r@ == self.resource@,
    {
        self.resource.as_str()
    }

    pub fn local_id(&self) -> (r: u64)
        ensures
            r == self.local_id,
    {
        self.local_id
    }

    /// Checks that the resource is not empty (a number's text never is).
    pub fn validate(&self) -> (r: Result<(), SourceScopedIdParseError>)
        ensures
            r == parts_check(self.resource@, decimal_text(self.local_id as nat)),
            r is Ok <==> self.resource@.len() > 0,
    {
        let mut local = String::new();
        push_decimal(&mut local, self.local_id);
        proof {
            lemma_decimal_text_is_u64_text(self.local_id);
        }
        validate_source_scoped_parts(self.resource.as_str(), local.as_str())
    }

    /// The id as text: `resource::local_id`, the number in decimal.
    pub fn to_string(&self) -> (s: String)
        ensures
            s@ == scoped_text(self.resource@, decimal_text(self.local_id as nat)),
    {
        join_scoped_number(self.resource.as_str(), self.local_id)
    }

    /// Reads an id from `resource::local_id`, the local id a `u64`.
    pub fn parse(value: &str) -> (r: Result<Self, SourceScopedIdParseError>)
        ensures
            match scoped_parts(value@) {
                None => r == Err::<Self, _>(SourceScopedIdParseError::MissingSeparator),
                Some((resource, local_id)) => match parts_check(resource, local_id) {
                    Err(e) => r == Err::<Self, _>(e),
                    Ok(_) => if is_u64_text(local_id) {
                        r matches Ok(id) && id.resource@ == resource && id.local_id
                            == digits_value(unsigned_digits(local_id))
                    } else {
                        r matches Err(SourceScopedIdParseError::InvalidInstanceId(_))
                    },
                },
            },
            r matches Ok(id) ==> numbered_id_outcome(value@) == Some((id.resource@, id.local_id)),
    {
        match parse_numbered(value, true) {
            Err(e) => Err(e),
            Ok((resource, local_id)) => Ok(SourceScopedGeometryInstanceId::new(resource, local_id)),
        }
    }
}

impl std::str::FromStr for SourceScopedGeometryInstanceId {
    type Err = SourceScopedIdParseError;

    fn from_str(value: &str) -> (r: Result<SourceScopedGeometryInstanceId, SourceScopedIdParseError>)
        ensures
            match scoped_parts(value@) {
                None => r == Err::<SourceScopedGeometryInstanceId, _>(SourceScopedIdParseError::MissingSeparator),
                Some((resource, local_id)) => match parts_check(resource, local_id) {
                    Err(e) => r == Err::<SourceScopedGeometryInstanceId, _>(e),
                    Ok(_) => if is_u64_text(local_id) {
                        r matches Ok(id) && id.resource@ == resource && id.local_id
                            == digits_value(unsigned_digits(local_id))
                    } else {
                        r matches Err(SourceScopedIdParseError::InvalidInstanceId(_))
                    },
                },
            },
    {
        SourceScopedGeometryInstanceId::parse(value)
    }
}

/// A geometry definition id qualified by the resource it came from.
#[derive(Clone, Debug, PartialEq, Eq, PartialOrd, Ord, Hash)]
pub struct SourceScopedGeometryDefinitionId {
    pub resource: String,
    pub local_id: u64,
}

impl SourceScopedGeometryDefinitionId {
    pub fn new(resource: &str, local_id: u64) -> (id: Self)
        ensures
            id.resource@ == resource@,
            id.local_id == local_id,
    {
        SourceScopedGeometryDefinitionId { resource: String::from_str(resource), local_id }
    }

    pub fn resource(&self) -> (r: &str)
        ensures
            r@ == self.resource@,
    {
        self.resource.as_str()
    }

    pub fn local_id(&self) -> (r: u64)
        ensures
            r == self.local_id,
    {
        self.local_id
    }

    /// Checks that the resource is not empty (a number's text never is).
    pub fn validate(&self) -> (r: Result<(), SourceScopedIdParseError>)
        ensures
            r == parts_check(self.resource@, decimal_text(self.local_id as nat)),
            r is Ok <==> self.resource@.len() > 0,
    {
        let mut local = String::new();
        push_decimal(&mut local, self.local_id);
        proof {
            lemma_decimal_text_is_u64_text(self.local_id);
        }
        validate_source_scoped_parts(self.resource.as_str(), local.as_str())
    }

    /// The id as text: `resource::local_id`, the number in decimal.
    pub fn to_string(&self) -> (s: String)
        ensures
            s@ == scoped_text(self.resource@, decimal_text(self.local_id as nat)),
    {
        join_scoped_number(self.resource.as_str(), self.local_id)
    }

    /// Reads an id from `resource::local_id`, the local id a `u64`.
    pub fn parse(value: &str) -> (r: Result<Self, SourceScopedIdParseError>)
        ensures
            match scoped_parts(value@) {
                None => r == Err::<Self, _>(SourceScopedIdParseError::MissingSeparator),
                Some((resource, local_id)) => match parts_check(resource, local_id) {
                    Err(e) => r == Err::<Self, _>(e),
                    Ok(_) => if is_u64_text(local_id) {
                        r matches Ok(id) && id.resource@ == resource && id.local_id
                            == digits_value(unsigned_digits(local_id))
                    } else {
                        r matches Err(SourceScopedIdParseError::InvalidDefinitionId(_))
                    },
                },
            },
            r matches Ok(id) ==> numbered_id_outcome(value@) == Some((id.resource@, id.local_id)),
    {
        match parse_numbered(value, false) {
            Err(e) => Err(e),
            Ok((resource, local_id)) => Ok(
                SourceScopedGeometryDefinitionId::new(resource, local_id),
            ),
        }
    }
}

impl std::str::FromStr for SourceScopedGeometryDefinitionId {
    type Err = SourceScopedIdParseError;

    fn from_str(value: &str) -> (r: Result<SourceScopedGeometryDefinitionId, SourceScopedIdParseError>)
        ensures
            match scoped_parts(value@) {
                None => r == Err::<SourceScopedGeometryDefinitionId, _>(SourceScopedIdParseError::MissingSeparator),
                Some((resource, local_id)) => match parts_check(resource, local_id) {
                    Err(e) => r == Err::<SourceScopedGeometryDefinitionId, _>(e),
                    Ok(_) => if is_u64_text(local_id) {
                        r matches Ok(id) && id.resource@ == resource && id.local_id
                            == digits_value(unsigned_digits(local_id))
                    } else {
                        r matches Err(SourceScopedIdParseError::InvalidDefinitionId(_))
                    },
                },
            },
    {
        SourceScopedGeometryDefinitionId::parse(value)
    }
}

/// Whether `value` holds the separator.
fn has_separator(value: &str) -> (r: bool)
    ensures
        r == contains_separator(value@),
{
    let chars = chars_of(value);
    find_separator(&chars).is_some()
}

/// The message that rejects a project member resource holding the
/// separator.
pub open spec fn member_resource_message(resource: Seq<char>) -> Seq<char> {
    "project member resource `"@ + resource + "` must not contain `::`"@
}

/// Checks a resource that names a member of a project: it must be
/// nonempty and hold no separator, so that ids scoped by it split back.
pub fn validate_project_member_resource(resource: &str) -> (r: Result<String, String>)
    ensures
        resource@.len() == 0 ==> (r matches Err(m) && m@
            == "source-scoped id resource must not be empty"@),
        resource@.len() > 0 && contains_separator(resource@) ==> (r matches Err(m) && m@
            == member_resource_message(resource@)),
        resource@.len() > 0 && !contains_separator(resource@) ==> (r matches Ok(s) && s@
            == resource@),
{
    proof {
        reveal_strlit("0");
    }
    if let Err(error) = validate_source_scoped_parts(resource, "0") {
        return Err(error.message());
    }
    if has_separator(resource) {
        let mut m = String::from_str("project member resource `");
        m.append(resource);
        m.append("` must not contain `::`");
        return Err(m);
    }
    Ok(String::from_str(resource))
}

/// The text of a semantic element id scoped by `resource`, or the message
/// of the first empty part.
pub fn source_scoped_semantic_element_id_string(resource: &str, local_id: &str) -> (r: Result<
    String,
    String,
>)
    ensures
        resource@.len() == 0 ==> (r matches Err(m) && m@
            == "source-scoped id resource must not be empty"@),
        resource@.len() > 0 && local_id@.len() == 0 ==> (r matches Err(m) && m@
            == "source-scoped id local id must not be empty"@),
        resource@.len() > 0 && local_id@.len() > 0 ==> (r matches Ok(s) && s@ == scoped_text(
            resource@,
            local_id@,
        )),
{
    if let Err(error) = validate_source_scoped_parts(resource, local_id) {
        return Err(error.message());
    }
    Ok(join_scoped(resource, local_id))
}

/// The text of a geometry instance id scoped by `resource`.
pub fn source_scoped_geometry_instance_id_string(resource: &str, local_id: u64) -> (s: String)
    ensures
        s@ == scoped_text(resource@, decimal_text(local_id as nat)),
{
    SourceScopedGeometryInstanceId::new(resource, local_id).to_string()
}

/// The text of a geometry definition id scoped by `resource`.
pub fn source_scoped_geometry_definition_id_string(resource: &str, local_id: u64) -> (s: String)
    ensures
        s@ == scoped_text(resource@, decimal_text(local_id as nat)),
{
    SourceScopedGeometryDefinitionId::new(resource, local_id).to_string()
}

/// Whether `s` starts with `ifc/`.
pub open spec fn is_ifc_resource(s: Seq<char>) -> bool {
    s.len() >= 4 && s[0] == 'i' && s[1] == 'f' && s[2] == 'c' && s[3] == '/'
}

/// The IFC resource that a scoped id names: the part before the first
/// separator, when it is an IFC resource and the rest is a nonempty local
/// id without a further separator.
pub fn source_resource_from_source_scoped_id(value: &str) -> (r: Option<&str>)
    ensures
        match scoped_parts(value@) {
            None => r is None,
            Some((resource, local_id)) => if resource.len() > 0 && is_ifc_resource(resource)
                && local_id.len() > 0 && !contains_separator(local_id) {
                r matches Some(found) && found@ == resource
            } else {
                r is None
            },
        },
{
    match split_at_separator(value) {
        None => None,
        Some((resource, local_id)) => {
            let chars = chars_of(resource);
            let ifc = chars.len() >= 4 && chars[0] == 'i' && chars[1] == 'f' && chars[2] == 'c'
                && chars[3] == '/';
            if !resource.is_empty() && ifc && !local_id.is_empty() && !has_separator(local_id) {
                Some(resource)
            } else {
                None
            }
        },
    }
}

/// The number of low bits of a project geometry id that carry the member's
/// own id.
pub const PROJECT_GEOMETRY_LOCAL_ID_BITS: u32 = 48;

/// The member's own part of a project geometry id: its low 48 bits.
pub fn project_local_geometry_id(id: u64) -> (local: u64)
    ensures
        local == id % 0x1_0000_0000_0000,
{
    let bit: u64 = 1u64 << PROJECT_GEOMETRY_LOCAL_ID_BITS;
    assert(bit == 0x1_0000_0000_0000) by (bit_vector)
        requires
            bit == 1u64 << 48u32,
    ;
    let mask: u64 = bit - 1;
    let local = id & mask;
    assert(local == id % 0x1_0000_0000_0000) by (bit_vector)
        requires
            local == id & mask,
            mask == 0xffff_ffff_ffff,
    ;
    local
}

} // verus!
