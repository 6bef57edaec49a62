//! Identifiers of jobs, tasks, nodes and leases.
use vstd::prelude::*;
use vstd::string::StringExecFns;

use crate::text::same;

verus! {

/// Whether a text is the simple form of a random UUID: thirty-two lower-case hexadecimal digits,
/// with the version digit 4 and the variant digit 8, 9, a or b.
pub open spec fn is_simple_uuid(s: Seq<char>) -> bool {
    &&& s.len() == 32
    &&& forall|i: int| 0 <= i < 32 ==> is_lower_hex(#[trigger] s[i])
    &&& s[12] == '4'
    &&& s[16] == '8' || s[16] == '9' || s[16] == 'a' || s[16] == 'b'
}

/// Whether a character is a lower-case hexadecimal digit.
pub open spec fn is_lower_hex(c: char) -> bool {
    ('0' <= c && c <= '9') || ('a' <= c && c <= 'f')
}

/// Calls `uuid::Uuid::new_v4` and writes the result in its simple form.
///
/// The value is random. What holds of every outcome is the shape of its text. Where the system
/// gives no random numbers, the call panics.
#[verifier::external_body]
fn random_uuid() -> (s: String)
    ensures
        is_simple_uuid(s@),
{
    uuid::Uuid::new_v4().simple().to_string()
}

/// Whether a text is a fresh identifier with the given prefix.
pub open spec fn is_fresh_id(id: Seq<char>, prefix: Seq<char>) -> bool {
    exists|uuid: Seq<char>|
        #![trigger is_simple_uuid(uuid)]
        is_simple_uuid(uuid) && id == prefix + "_"@ + uuid
}

/// A fresh identifier with the given prefix.
fn fresh_id(prefix: &str) -> (s: String)
    ensures
        is_fresh_id(s@, prefix@),
{
    let uuid = random_uuid();
    let mut s = prefix.to_owned();
    s.append("_");
    s.append(uuid.as_str());
    s
}

/// The identifier of a job.
#[derive(Debug, PartialEq, Eq, PartialOrd, Ord, Hash)]
pub struct JobId(pub String);

impl View for JobId {
    type V = Seq<char>;

    open spec fn view(&self) -> Seq<char> {
        self.0@
    }
}

impl Clone for JobId {
    fn clone(&self) -> (r: Self)
        ensures
            r == *self,
    {
        JobId(self.0.clone())
    }
}

impl JobId {
    /// A fresh identifier.
    pub fn new() -> (id: Self)
        ensures
            is_fresh_id(id@, "job"@),
    {
        JobId(fresh_id("job"))
    }

    /// The identifier as text.
    pub fn as_str(&self) -> (s: &str)
        ensures
            s@ == self@,
    {
        self.0.as_str()
    }

    /// The identifier as an owned text.
    pub fn to_string(&self) -> (s: String)
        ensures
            s == self.0,
    {
        self.0.clone()
    }

    /// Whether both are the same identifier.
    pub fn is(&self, other: &Self) -> (r: bool)
        ensures
            r == (self@ == other@),
    {
        same(self.0.as_str(), other.0.as_str())
    }
}

impl From<String> for JobId {
    fn from(value: String) -> (r: Self)
        ensures
            r.0 == value,
    {
        JobId(value)
    }
}

impl vstd::std_specs::convert::FromSpecImpl<String> for JobId {
    open spec fn obeys_from_spec() -> bool {
        true
    }

    open spec fn from_spec(value: String) -> Self {
        JobId(value)
    }
}

impl<'a> From<&'a str> for JobId {
    fn from(value: &'a str) -> (r: Self)
        ensures
            r@ == value@,
    {
        JobId(value.to_owned())
    }
}

impl<'a> vstd::std_specs::convert::FromSpecImpl<&'a str> for JobId {
    open spec fn obeys_from_spec() -> bool {
        false
    }

    open spec fn from_spec(value: &'a str) -> Self {
        arbitrary()
    }
}

/// The identifier of a task.
#[derive(Debug, PartialEq, Eq, PartialOrd, Ord, Hash)]
pub struct TaskId(pub String);

impl View for TaskId {
    type V = Seq<char>;

    open spec fn view(&self) -> Seq<char> {
        self.0@
    }
}

impl Clone for TaskId {
    fn clone(&self) -> (r: Self)
        ensures
            r == *self,
    {
        TaskId(self.0.clone())
    }
}

impl TaskId {
    /// A fresh identifier.
    pub fn new() -> (id: Self)
        ensures
            is_fresh_id(id@, "task"@),
    {
        TaskId(fresh_id("task"))
    }

    /// The identifier as text.
    pub fn as_str(&self) -> (s: &str)
        ensures
            s@ == self@,
    {
        self.0.as_str()
    }

    /// The identifier as an owned text.
    pub fn to_string(&self) -> (s: String)
        ensures
            s == self.0,
    {
        self.0.clone()
    }

    /// Whether both are the same identifier.
    pub fn is(&self, other: &Self) -> (r: bool)
        ensures
            r == (self@ == other@),
    {
        same(self.0.as_str(), other.0.as_str())
    }
}

impl From<String> for TaskId {
    fn from(value: String) -> (r: Self)
        ensures
            r.0 == value,
    {
        TaskId(value)
    }
}

impl vstd::std_specs::convert::FromSpecImpl<String> for TaskId {
    open spec fn obeys_from_spec() -> bool {
        true
    }

    open spec fn from_spec(value: String) -> Self {
        TaskId(value)
    }
}

impl<'a> From<&'a str> for TaskId {
    fn from(value: &'a str) -> (r: Self)
        ensures
            r@ == value@,
    {
        TaskId(value.to_owned())
    }
}

impl<'a> vstd::std_specs::convert::FromSpecImpl<&'a str> for TaskId {
    open spec fn obeys_from_spec() -> bool {
        false
    }

    open spec fn from_spec(value: &'a str) -> Self {
        arbitrary()
    }
}

/// The identifier of a node.
#[derive(Debug, PartialEq, Eq, PartialOrd, Ord, Hash)]
pub struct NodeId(pub String);

impl View for NodeId {
    type V = Seq<char>;

    open spec fn view(&self) -> Seq<char> {
        self.0@
    }
}

impl Clone for NodeId {
    fn clone(&self) -> (r: Self)
        ensures
            r == *self,
    {
        NodeId(self.0.clone())
    }
}

impl NodeId {
    /// A fresh identifier.
    pub fn new() -> (id: Self)
        ensures
            is_fresh_id(id@, "node"@),
    {
        NodeId(fresh_id("node"))
    }

    /// The identifier as text.
    pub fn as_str(&self) -> (s: &str)
        ensures
            s@ == self@,
    {
        self.0.as_str()
    }

    /// The identifier as an owned text.
    pub fn to_string(&self) -> (s: String)
        ensures
            s == self.0,
    {
        self.0.clone()
    }

    /// Whether both are the same identifier.
    pub fn is(&self, other: &Self) -> (r: bool)
        ensures
            r == (self@ == other@),
    {
        same(self.0.as_str(), other.0.as_str())
    }
}

impl From<String> for NodeId {
    fn from(value: String) -> (r: Self)
        ensures
            r.0 == value,
    {
        NodeId(value)
    }
}

impl vstd::std_specs::convert::FromSpecImpl<String> for NodeId {
    open spec fn obeys_from_spec() -> bool {
        true
    }

    open spec fn from_spec(value: String) -> Self {
        NodeId(value)
    }
}

impl<'a> From<&'a str> for NodeId {
    fn from(value: &'a str) -> (r: Self)
        ensures
            r@ == value@,
    {
        NodeId(value.to_owned())
    }
}

impl<'a> vstd::std_specs::convert::FromSpecImpl<&'a str> for NodeId {
    open spec fn obeys_from_spec() -> bool {
        false
    }

    open spec fn from_spec(value: &'a str) -> Self {
        arbitrary()
    }
}

/// The identifier of a lease.
#[derive(Debug, PartialEq, Eq, PartialOrd, Ord, Hash)]
pub struct LeaseId(pub String);

impl View for LeaseId {
    type V = Seq<char>;

    open spec fn view(&self) -> Seq<char> {
        self.0@
    }
}

impl Clone for LeaseId {
    fn clone(&self) -> (r: Self)
        ensures
            r == *self,
    {
        LeaseId(self.0.clone())
    }
}

impl LeaseId {
    /// A fresh identifier.
    pub fn new() -> (id: Self)
        ensures
            is_fresh_id(id@, "lease"@),
    {
        LeaseId(fresh_id("lease"))
    }

    /// The identifier as text.
    pub fn as_str(&self) -> (s: &str)
        ensures
            s@ == self@,
    {
        self.0.as_str()
    }

    /// The identifier as an owned text.
    pub fn to_string(&self) -> (s: String)
        ensures
            s == self.0,
    {
        self.0.clone()
    }

    /// Whether both are the same identifier.
    pub fn is(&self, other: &Self) -> (r: bool)
        ensures
            r == (self@ == other@),
    {
        same(self.0.as_str(), other.0.as_str())
    }
}

impl From<String> for LeaseId {
    fn from(value: String) -> (r: Self)
        ensures
            r.0 == value,
    {
        LeaseId(value)
    }
}

impl vstd::std_specs::convert::FromSpecImpl<String> for LeaseId {
    open spec fn obeys_from_spec() -> bool {
        true
    }

    open spec fn from_spec(value: String) -> Self {
        LeaseId(value)
    }
}

impl<'a> From<&'a str> for LeaseId {
    fn from(value: &'a str) -> (r: Self)
        ensures
            r@ == value@,
    {
        LeaseId(value.to_owned())
    }
}

impl<'a> vstd::std_specs::convert::FromSpecImpl<&'a str> for LeaseId {
    open spec fn obeys_from_spec() -> bool {
        false
    }

    open spec fn from_spec(value: &'a str) -> Self {
        arbitrary()
    }
}

/// An identifier is its text.
pub proof fn law_identifier_is_its_text(text: String)
    ensures
        JobId(text)@ == text@,
        TaskId(text)@ == text@,
        NodeId(text)@ == text@,
        LeaseId(text)@ == text@,
{
}

/// A fresh identifier is its prefix, an underscore and thirty-two lower-case hexadecimal digits.
pub proof fn law_fresh_identifier(id: Seq<char>, prefix: Seq<char>, i: int)
    requires
        is_fresh_id(id, prefix),
    ensures
        id.len() == prefix.len() + 33,
        id.take(prefix.len() as int) == prefix,
        id[prefix.len() as int] == '_',
        prefix.len() < i < id.len() ==> ('0' <= id[i] && id[i] <= '9') || ('a' <= id[i] && id[i]
            <= 'f'),
{
    reveal_strlit("_");
    let uuid = choose|uuid: Seq<char>|
        #![trigger is_simple_uuid(uuid)]
        is_simple_uuid(uuid) && id == prefix + "_"@ + uuid;
    assert(id.take(prefix.len() as int) =~= prefix);
    if prefix.len() < i < id.len() {
        assert(id[i] == uuid[i - prefix.len() - 1]);
    }
}

} // verus!
