//! Change events and the text form in which they are pushed to live sessions:
//! a JSON object with one member, named after the entity kind and the
//! operation, whose value is the entity's JSON or, for a deletion, its
//! identifier as a JSON string.

use vstd::prelude::*;
use vstd::string::StringExecFns;

use crate::pin::hex_digit;

verus! {

/// The kinds of catalog entity whose changes are announced.
#[derive(Clone, Copy, Debug, PartialEq, Eq, Structural)]
pub enum EntityKind {
    Staff,
    Category,
    Item,
    Modifier,
    Option,
    Discount,
}

/// What happened to the entity.
#[derive(Clone, Copy, Debug, PartialEq, Eq, Structural)]
pub enum Operation {
    Created,
    Updated,
    Deleted,
}

impl EntityKind {
    pub open spec fn name_view(self) -> Seq<char> {
        match self {
            EntityKind::Staff => seq!['S', 't', 'a', 'f', 'f'],
            EntityKind::Category => seq!['C', 'a', 't', 'e', 'g', 'o', 'r', 'y'],
            EntityKind::Item => seq!['I', 't', 'e', 'm'],
            EntityKind::Modifier => seq!['M', 'o', 'd', 'i', 'f', 'i', 'e', 'r'],
            EntityKind::Option => seq!['O', 'p', 't', 'i', 'o', 'n'],
            EntityKind::Discount => seq!['D', 'i', 's', 'c', 'o', 'u', 'n', 't'],
        }
    }

    pub fn name(&self) -> (r: &'static str)
        ensures
            r@ == self.name_view(),
    {
        proof {
            reveal_strlit("Staff");
            reveal_strlit("Category");
            reveal_strlit("Item");
            reveal_strlit("Modifier");
            reveal_strlit("Option");
            reveal_strlit("Discount");
        }
        match self {
            EntityKind::Staff => "Staff",
            EntityKind::Category => "Category",
            EntityKind::Item => "Item",
            EntityKind::Modifier => "Modifier",
            EntityKind::Option => "Option",
            EntityKind::Discount => "Discount",
        }
    }
}

impl Operation {
    pub open spec fn name_view(self) -> Seq<char> {
        match self {
            Operation::Created => seq!['C', 'r', 'e', 'a', 't', 'e', 'd'],
            Operation::Updated => seq!['U', 'p', 'd', 'a', 't', 'e', 'd'],
            Operation::Deleted => seq!['D', 'e', 'l', 'e', 't', 'e', 'd'],
        }
    }

    pub fn name(&self) -> (r: &'static str)
        ensures
            r@ == self.name_view(),
    {
        proof {
            reveal_strlit("Created");
            reveal_strlit("Updated");
            reveal_strlit("Deleted");
        }
        match self {
            Operation::Created => "Created",
            Operation::Updated => "Updated",
            Operation::Deleted => "Deleted",
        }
    }
}

/// How one character is written inside a JSON string: quote, backslash and
/// control characters are escaped, short forms where JSON has them and
/// `\u00XX` with lowercase digits otherwise; every other character stands as is.
pub open spec fn json_escape(c: char) -> Seq<char> {
    if c == '"' {
        seq!['\\', '"']
    } else if c == '\\' {
        seq!['\\', '\\']
    } else if c == '\x08' {
        seq!['\\', 'b']
    } else if c == '\t' {
        seq!['\\', 't']
    } else if c == '\n' {
        seq!['\\', 'n']
    } else if c == '\x0c' {
        seq!['\\', 'f']
    } else if c == '\r' {
        seq!['\\', 'r']
    } else if (c as u32) < 0x20 {
        seq!['\\', 'u', '0', '0', hex_digit(((c as u32) / 16) as u8), hex_digit(((c as u32) % 16) as u8)]
    } else {
        seq![c]
    }
}

/// The characters of `s`, each escaped.
pub open spec fn json_escaped(s: Seq<char>) -> Seq<char>
    decreases s.len(),
{
    if s.len() == 0 {
        seq![]
    } else {
        json_escaped(s.drop_last()) + json_escape(s.last())
    }
}

/// The JSON text of a string value: the escaped characters between quotes.
pub open spec fn json_string(s: Seq<char>) -> Seq<char> {
    seq!['"'] + json_escaped(s) + seq!['"']
}

/// Relies on serde_json::to_string on a `str`: the value between quotes,
/// escaped as `json_escape` says (its escape table and `write_char_escape`).
/// Serialising a `str` into memory does not fail.
#[verifier::external_body]
fn encode_json_string(s: &str) -> (r: String)
    ensures
        r@ == json_string(s@),
{
    serde_json::to_string(s).unwrap_or_default()
}

/// One change to one entity, as announced to live sessions.
#[derive(Debug)]
pub struct ChangeEvent {
    pub kind: EntityKind,
    pub op: Operation,
    /// The JSON text of the entity, or of its identifier for a deletion.
    pub body: String,
}

/// The member name that tells the event's kind: entity then operation.
pub open spec fn tag_view(kind: EntityKind, op: Operation) -> Seq<char> {
    kind.name_view() + op.name_view()
}

/// The text pushed to sessions for an event of this tag and body.
pub open spec fn wire_view(kind: EntityKind, op: Operation, body: Seq<char>) -> Seq<char> {
    seq!['{', '"'] + tag_view(kind, op) + seq!['"', ':'] + body + seq!['}']
}

impl ChangeEvent {
    pub open spec fn wire_spec(&self) -> Seq<char> {
        wire_view(self.kind, self.op, self.body@)
    }

    /// An event whose body is the entity's JSON text.
    pub fn new(kind: EntityKind, op: Operation, body: String) -> (r: ChangeEvent)
        ensures
            r.kind == kind,
            r.op == op,
            r.body@ == body@,
    {
        ChangeEvent { kind, op, body }
    }

    /// The deletion of the entity with identifier `id`.
    pub fn deleted(kind: EntityKind, id: &str) -> (r: ChangeEvent)
        ensures
            r.kind == kind,
            r.op == Operation::Deleted,
            r.body@ == json_string(id@),
    {
        ChangeEvent { kind, op: Operation::Deleted, body: encode_json_string(id) }
    }

    /// The tag of this event, such as `CategoryCreated`.
    pub fn tag(&self) -> (r: String)
        ensures
            r@ == tag_view(self.kind, self.op),
    {
        let mut r = String::from_str(self.kind.name());
        r.append(self.op.name());
        r
    }

    /// The text that sessions receive for this event.
    pub fn to_wire(&self) -> (r: String)
        ensures
            r@ == self.wire_spec(),
    {
        let mut r = String::from_str("{\"");
        r.append(self.kind.name());
        r.append(self.op.name());
        r.append("\":");
        r.append(self.body.as_str());
        r.append("}");
        proof {
            reveal_strlit("{\"");
            reveal_strlit("\":");
            reveal_strlit("}");
            assert(r@ =~= self.wire_spec());
        }
        r
    }
}

} // verus!
