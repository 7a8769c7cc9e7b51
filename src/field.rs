//! Field definitions of generated models, written `name:type[:constraint]*`.
use crate::text::{ascii_alnum, ascii_alpha, is_ascii_alnum, is_ascii_alpha, lower_of, lowercase, trim, trimmed};
use vstd::prelude::*;

verus! {

/// Failures of input checks.
#[derive(Debug)]
pub enum BindingError {
    Validation(String),
}

impl BindingError {
    pub fn validation(message: &str) -> (r: BindingError)
        ensures
            r->Validation_0@ == message@,
    {
        BindingError::Validation(message.to_string())
    }

    /// The error's description.
    pub fn to_text(&self) -> (r: String)
        ensures
            r@ == "Validation error: "@ + self->Validation_0@,
    {
        let mut s = "Validation error: ".to_string();
        match self {
            BindingError::Validation(m) => s.append(m.as_str()),
        }
        s
    }
}

#[derive(Debug, Clone, Copy, PartialEq, Eq)]
pub enum FieldType {
    String,
    I32,
    I64,
    F32,
    F64,
    Boolean,
    DateTime,
    Uuid,
    Json,
    Text,
}

/// The type a lower-cased name denotes.
pub open spec fn field_type_of(lc: Seq<char>) -> Option<FieldType> {
    if lc == "string"@ {
        Some(FieldType::String)
    } else if lc == "i32"@ {
        Some(FieldType::I32)
    } else if lc == "i64"@ {
        Some(FieldType::I64)
    } else if lc == "f32"@ {
        Some(FieldType::F32)
    } else if lc == "f64"@ {
        Some(FieldType::F64)
    } else if lc == "boolean"@ {
        Some(FieldType::Boolean)
    } else if lc == "datetime"@ {
        Some(FieldType::DateTime)
    } else if lc == "uuid"@ {
        Some(FieldType::Uuid)
    } else if lc == "json"@ {
        Some(FieldType::Json)
    } else if lc == "text"@ {
        Some(FieldType::Text)
    } else {
        None
    }
}

pub open spec fn unsupported_type_message(s: Seq<char>) -> Seq<char> {
    "Unsupported field type: '"@ + s
        + "'. Supported types: string, i32, i64, f32, f64, boolean, datetime, uuid, json, text"@
}

pub open spec fn unsupported_constraint_message(s: Seq<char>) -> Seq<char> {
    "Unsupported constraint: '"@ + s
        + "'. Supported constraints: unique, primary_key, nullable, optional, default:<value>, foreign_key:<table>"@
}

fn eq_str(a: &str, b: &str) -> (r: bool)
    ensures
        r == (a@ == b@),
{
    a.to_string() == b.to_string()
}

impl FieldType {
    pub open spec fn spec_name(&self) -> Seq<char> {
        match self {
            FieldType::String => "string"@,
            FieldType::I32 => "i32"@,
            FieldType::I64 => "i64"@,
            FieldType::F32 => "f32"@,
            FieldType::F64 => "f64"@,
            FieldType::Boolean => "boolean"@,
            FieldType::DateTime => "datetime"@,
            FieldType::Uuid => "uuid"@,
            FieldType::Json => "json"@,
            FieldType::Text => "text"@,
        }
    }

    /// The type named by an already lower-cased name.
    pub fn from_lowercase(lc: &str) -> (r: Result<FieldType, BindingError>)
        ensures
            match field_type_of(lc@) {
                Some(t) => r == Ok::<FieldType, BindingError>(t),
                None => r is Err && r->Err_0->Validation_0@ == unsupported_type_message(lc@),
            },
    {
        if eq_str(lc, "string") {
            Ok(FieldType::String)
        } else if eq_str(lc, "i32") {
            Ok(FieldType::I32)
        } else if eq_str(lc, "i64") {
            Ok(FieldType::I64)
        } else if eq_str(lc, "f32") {
            Ok(FieldType::F32)
        } else if eq_str(lc, "f64") {
            Ok(FieldType::F64)
        } else if eq_str(lc, "boolean") {
            Ok(FieldType::Boolean)
        } else if eq_str(lc, "datetime") {
            Ok(FieldType::DateTime)
        } else if eq_str(lc, "uuid") {
            Ok(FieldType::Uuid)
        } else if eq_str(lc, "json") {
            Ok(FieldType::Json)
        } else if eq_str(lc, "text") {
            Ok(FieldType::Text)
        } else {
            let mut m = "Unsupported field type: '".to_string();
            m.append(lc);
            m.append(
                "'. Supported types: string, i32, i64, f32, f64, boolean, datetime, uuid, json, text",
            );
            Err(BindingError::Validation(m))
        }
    }

    /// The type named by `s`, in any letter case.
    pub fn from_str(s: &str) -> (r: Result<FieldType, BindingError>)
        ensures
            match field_type_of(lower_of(s@)) {
                Some(t) => r == Ok::<FieldType, BindingError>(t),
                None => r is Err && r->Err_0->Validation_0@ == unsupported_type_message(s@),
            },
    {
        let lc = lowercase(s);
        match FieldType::from_lowercase(lc.as_str()) {
            Ok(t) => Ok(t),
            Err(_) => {
                let mut m = "Unsupported field type: '".to_string();
                m.append(s);
                m.append(
                    "'. Supported types: string, i32, i64, f32, f64, boolean, datetime, uuid, json, text",
                );
                Err(BindingError::Validation(m))
            },
        }
    }

    pub fn to_string(&self) -> (r: &'static str)
        ensures
            r@ == self.spec_name(),
    {
        match self {
            FieldType::String => "string",
            FieldType::I32 => "i32",
            FieldType::I64 => "i64",
            FieldType::F32 => "f32",
            FieldType::F64 => "f64",
            FieldType::Boolean => "boolean",
            FieldType::DateTime => "datetime",
            FieldType::Uuid => "uuid",
            FieldType::Json => "json",
            FieldType::Text => "text",
        }
    }
}

#[derive(Debug, Clone, PartialEq)]
pub enum FieldConstraint {
    Unique,
    PrimaryKey,
    Nullable,
    Optional,
    Default(String),
    ForeignKey(String),
}

pub open spec fn is_prefix(p: Seq<char>, s: Seq<char>) -> bool {
    p.len() <= s.len() && s.subrange(0, p.len() as int) == p
}

/// The remainder of `s` after `prefix`, when `s` starts with it.
pub fn strip_prefix(s: &str, prefix: &str) -> (r: Option<String>)
    ensures
        r is Some <==> is_prefix(prefix@, s@),
        r is Some ==> r->Some_0@ == s@.subrange(prefix@.len() as int, s@.len() as int),
{
    let n = s.unicode_len();
    let k = prefix.unicode_len();
    if k > n {
        return None;
    }
    let mut i: usize = 0;
    while i < k
        invariant
            i <= k <= n,
            n == s@.len(),
            k == prefix@.len(),
            forall|j: int| 0 <= j < i ==> s@[j] == prefix@[j],
        decreases k - i,
    {
        if s.get_char(i) != prefix.get_char(i) {
            return None;
        }
        i = i + 1;
    }
    proof {
        assert(s@.subrange(0, k as int) =~= prefix@);
    }
    Some(s.substring_char(k, n).to_string())
}

/// What a constraint text means.
pub open spec fn constraint_ok(s: Seq<char>, c: FieldConstraint) -> bool {
    if s == "unique"@ {
        c is Unique
    } else if s == "primary_key"@ {
        c is PrimaryKey
    } else if s == "nullable"@ || s == "optional"@ {
        c is Nullable
    } else if is_prefix("default:"@, s) {
        c is Default && c->Default_0@ == s.subrange(8, s.len() as int)
    } else if is_prefix("foreign_key:"@, s) {
        c is ForeignKey && c->ForeignKey_0@ == s.subrange(12, s.len() as int)
    } else {
        false
    }
}

pub open spec fn constraint_known(s: Seq<char>) -> bool {
    s == "unique"@ || s == "primary_key"@ || s == "nullable"@ || s == "optional"@ || is_prefix(
        "default:"@,
        s,
    ) || is_prefix("foreign_key:"@, s)
}

impl FieldConstraint {
    pub fn from_str(s: &str) -> (r: Result<FieldConstraint, BindingError>)
        ensures
            r is Ok <==> constraint_known(s@),
            r is Ok ==> constraint_ok(s@, r->Ok_0),
            r is Err ==> r->Err_0->Validation_0@ == unsupported_constraint_message(s@),
    {
        proof {
            reveal_strlit("default:");
            reveal_strlit("foreign_key:");
        }
        if eq_str(s, "unique") {
            Ok(FieldConstraint::Unique)
        } else if eq_str(s, "primary_key") {
            Ok(FieldConstraint::PrimaryKey)
        } else if eq_str(s, "nullable") || eq_str(s, "optional") {
            Ok(FieldConstraint::Nullable)
        } else if let Some(v) = strip_prefix(s, "default:") {
            Ok(FieldConstraint::Default(v))
        } else if let Some(v) = strip_prefix(s, "foreign_key:") {
            Ok(FieldConstraint::ForeignKey(v))
        } else {
            let mut m = "Unsupported constraint: '".to_string();
            m.append(s);
            m.append(
                "'. Supported constraints: unique, primary_key, nullable, optional, default:<value>, foreign_key:<table>",
            );
            Err(BindingError::Validation(m))
        }
    }

    pub open spec fn spec_text(&self) -> Seq<char> {
        match self {
            FieldConstraint::Unique => "unique"@,
            FieldConstraint::PrimaryKey => "primary_key"@,
            FieldConstraint::Nullable => "nullable"@,
            FieldConstraint::Optional => "optional"@,
            FieldConstraint::Default(v) => "default:"@ + v@,
            FieldConstraint::ForeignKey(v) => "foreign_key:"@ + v@,
        }
    }

    pub fn to_string(&self) -> (r: String)
        ensures
            r@ == self.spec_text(),
    {
        match self {
            FieldConstraint::Unique => "unique".to_string(),
            FieldConstraint::PrimaryKey => "primary_key".to_string(),
            FieldConstraint::Nullable => "nullable".to_string(),
            FieldConstraint::Optional => "optional".to_string(),
            FieldConstraint::Default(v) => {
                let mut s = "default:".to_string();
                s.append(v.as_str());
                s
            },
            FieldConstraint::ForeignKey(v) => {
                let mut s = "foreign_key:".to_string();
                s.append(v.as_str());
                s
            },
        }
    }
}

/// The same constraint: the same kind, with the same value.
pub open spec fn same_constraint(a: FieldConstraint, b: FieldConstraint) -> bool {
    match (a, b) {
        (FieldConstraint::Unique, FieldConstraint::Unique) => true,
        (FieldConstraint::PrimaryKey, FieldConstraint::PrimaryKey) => true,
        (FieldConstraint::Nullable, FieldConstraint::Nullable) => true,
        (FieldConstraint::Optional, FieldConstraint::Optional) => true,
        (FieldConstraint::Default(x), FieldConstraint::Default(y)) => x@ == y@,
        (FieldConstraint::ForeignKey(x), FieldConstraint::ForeignKey(y)) => x@ == y@,
        _ => false,
    }
}

fn constraint_eq(a: &FieldConstraint, b: &FieldConstraint) -> (r: bool)
    ensures
        r == same_constraint(*a, *b),
{
    match (a, b) {
        (FieldConstraint::Unique, FieldConstraint::Unique) => true,
        (FieldConstraint::PrimaryKey, FieldConstraint::PrimaryKey) => true,
        (FieldConstraint::Nullable, FieldConstraint::Nullable) => true,
        (FieldConstraint::Optional, FieldConstraint::Optional) => true,
        (FieldConstraint::Default(x), FieldConstraint::Default(y)) => *x == *y,
        (FieldConstraint::ForeignKey(x), FieldConstraint::ForeignKey(y)) => *x == *y,
        _ => false,
    }
}

/// Words that cannot name a field.
pub open spec fn reserved_word(n: Seq<char>) -> bool {
    n == "id"@ || n == "type"@ || n == "struct"@ || n == "enum"@ || n == "impl"@ || n == "fn"@ || n
        == "let"@ || n == "mut"@
}

/// A field name: a letter, then letters, digits or underscores, no capitals,
/// and not a reserved word.
pub open spec fn field_name_ok(n: Seq<char>) -> bool {
    &&& n.len() > 0
    &&& is_ascii_alpha(n[0])
    &&& forall|i: int| 0 <= i < n.len() ==> (is_ascii_alnum(#[trigger] n[i]) || n[i] == '_')
    &&& forall|i: int| 0 <= i < n.len() ==> !('A' as u32 <= (#[trigger] n[i]) as u32 <= 'Z' as u32)
    &&& !reserved_word(n)
}

/// Checks a field name.
pub fn validate_field_name(name: &str) -> (r: Result<(), BindingError>)
    ensures
        r is Ok <==> field_name_ok(name@),
{
    let n = name.unicode_len();
    if n == 0 {
        return Err(BindingError::validation("Field name cannot be empty"));
    }
    if !ascii_alpha(name.get_char(0)) {
        let mut m = "Invalid field name: '".to_string();
        m.append(name);
        m.append("' must start with a letter");
        return Err(BindingError::Validation(m));
    }
    let mut i: usize = 0;
    while i < n
        invariant
            i <= n,
            n == name@.len(),
            forall|j: int| 0 <= j < i ==> (is_ascii_alnum(#[trigger] name@[j]) || name@[j] == '_'),
        decreases n - i,
    {
        let c = name.get_char(i);
        if !(ascii_alnum(c) || c == '_') {
            let mut m = "Invalid field name: '".to_string();
            m.append(name);
            m.append(
                "' contains invalid characters. Use only letters, numbers, and underscores",
            );
            return Err(BindingError::Validation(m));
        }
        i = i + 1;
    }
    let mut i: usize = 0;
    while i < n
        invariant
            i <= n,
            n == name@.len(),
            forall|j: int| 0 <= j < i ==> !('A' as u32 <= (#[trigger] name@[j]) as u32 <= 'Z' as u32),
        decreases n - i,
    {
        let c = name.get_char(i) as u32;
        if 'A' as u32 <= c && c <= 'Z' as u32 {
            let mut m = "Invalid field name: '".to_string();
            m.append(name);
            m.append("' should be snake_case (lowercase with underscores)");
            return Err(BindingError::Validation(m));
        }
        i = i + 1;
    }
    if eq_str(name, "id") || eq_str(name, "type") || eq_str(name, "struct") || eq_str(name, "enum")
        || eq_str(name, "impl") || eq_str(name, "fn") || eq_str(name, "let") || eq_str(name, "mut") {
        let mut m = "Field name '".to_string();
        m.append(name);
        m.append("' is a reserved keyword. Choose a different name");
        return Err(BindingError::Validation(m));
    }
    Ok(())
}

/// Index of the first `c` in `s` at or after `i`, or the length.
pub open spec fn index_of_from(s: Seq<char>, c: char, i: int) -> int
    decreases s.len() - i,
{
    if i < 0 || i >= s.len() {
        s.len() as int
    } else if s[i] == c {
        i
    } else {
        index_of_from(s, c, i + 1)
    }
}

/// The pieces of `s[start..]` between occurrences of `c`; there is always at
/// least one.
pub open spec fn split_from(s: Seq<char>, c: char, start: int) -> Seq<Seq<char>>
    decreases s.len() - start,
{
    let k = index_of_from(s, c, start);
    if start < 0 || start > s.len() {
        seq![]
    } else if start <= k < s.len() {
        seq![s.subrange(start, k)] + split_from(s, c, k + 1)
    } else {
        seq![s.subrange(start, s.len() as int)]
    }
}

pub open spec fn pieces(s: Seq<char>) -> Seq<Seq<char>> {
    split_from(s, ':', 0)
}

/// Splits `s` at every `c`.
pub fn split_char(s: &str, c: char) -> (r: Vec<String>)
    ensures
        r@.len() == split_from(s@, c, 0).len(),
        forall|i: int| 0 <= i < r@.len() ==> #[trigger] r@[i]@ == split_from(s@, c, 0)[i],
{
    let n = s.unicode_len();
    let mut parts: Vec<String> = Vec::new();
    let ghost mut pv: Seq<Seq<char>> = Seq::empty();
    let mut start: usize = 0;
    let mut i: usize = 0;
    while i < n
        invariant
            n == s@.len(),
            start <= i <= n,
            parts@.len() == pv.len(),
            forall|j: int| 0 <= j < pv.len() ==> #[trigger] parts@[j]@ == pv[j],
            pv + split_from(s@, c, start as int) == split_from(s@, c, 0),
            index_of_from(s@, c, start as int) == index_of_from(s@, c, i as int),
        decreases n - i,
    {
        if s.get_char(i) == c {
            let piece = s.substring_char(start, i).to_string();
            proof {
                assert(split_from(s@, c, start as int) == seq![s@.subrange(start as int, i as int)]
                    + split_from(s@, c, i + 1));
                pv = pv.push(piece@);
                assert(pv + split_from(s@, c, i + 1) =~= split_from(s@, c, 0));
            }
            parts.push(piece);
            start = i + 1;
        }
        i = i + 1;
    }
    let piece = s.substring_char(start, n).to_string();
    proof {
        assert(split_from(s@, c, start as int) == seq![s@.subrange(start as int, n as int)]);
        pv = pv.push(piece@);
        assert(pv =~= split_from(s@, c, 0));
    }
    parts.push(piece);
    parts
}

/// A parsed field definition.
#[derive(Debug, Clone, PartialEq)]
pub struct FieldDefinition {
    pub name: String,
    pub field_type: FieldType,
    pub constraints: Vec<FieldConstraint>,
    pub optional: bool,
}

pub open spec fn marks_optional(t: Seq<char>) -> bool {
    t == "optional"@ || t == "nullable"@
}

/// Whether `text` is a valid definition.
pub open spec fn definition_ok(text: Seq<char>) -> bool {
    let p = pieces(text);
    &&& p.len() >= 2
    &&& field_name_ok(trimmed(p[0]))
    &&& field_type_of(lower_of(trimmed(p[1]))) is Some
    &&& forall|j: int| 2 <= j < p.len() ==> constraint_known(trimmed(#[trigger] p[j]))
}

/// `f` is what `text` defines.
pub open spec fn defines(text: Seq<char>, f: FieldDefinition) -> bool {
    let p = pieces(text);
    &&& p.len() >= 2
    &&& f.name@ == trimmed(p[0])
    &&& field_type_of(lower_of(trimmed(p[1]))) == Some(f.field_type)
    &&& f.constraints@.len() == p.len() - 2
    &&& forall|j: int|
        0 <= j < f.constraints@.len() ==> constraint_ok(trimmed(p[j + 2]), #[trigger] f.constraints@[j])
    &&& f.optional == exists|j: int| 2 <= j < p.len() && marks_optional(trimmed(#[trigger] p[j]))
}

/// The text of constraints, each preceded by a colon.
pub open spec fn constraints_text(cs: Seq<FieldConstraint>) -> Seq<char>
    decreases cs.len(),
{
    if cs.len() == 0 {
        Seq::empty()
    } else {
        constraints_text(cs.drop_last()) + ":"@ + cs.last().spec_text()
    }
}

pub open spec fn has_pk(f: FieldDefinition) -> bool {
    exists|i: int| 0 <= i < f.constraints@.len() && (#[trigger] f.constraints@[i]) is PrimaryKey
}

impl FieldDefinition {
    /// Parses `name:type[:constraint]*`; the parts are trimmed, the type is
    /// read in any letter case.
    pub fn from_str(s: &str) -> (r: Result<FieldDefinition, BindingError>)
        ensures
            r is Ok <==> definition_ok(s@),
            r is Ok ==> defines(s@, r->Ok_0),
    {
        let parts = split_char(s, ':');
        let ghost p = pieces(s@);
        if parts.len() < 2 {
            let mut m = "Invalid field format: '".to_string();
            m.append(s);
            m.append("'. Expected format: 'name:type[:constraint]*'");
            return Err(BindingError::Validation(m));
        }
        let name = trim(parts[0].as_str());
        let type_str = trim(parts[1].as_str());
        match validate_field_name(name) {
            Err(e) => return Err(e),
            Ok(()) => {},
        }
        let field_type = match FieldType::from_str(type_str) {
            Err(e) => return Err(e),
            Ok(t) => t,
        };
        let mut constraints: Vec<FieldConstraint> = Vec::new();
        let mut optional = false;
        let mut k: usize = 2;
        while k < parts.len()
            invariant
                2 <= k <= parts@.len(),
                p == pieces(s@),
                parts@.len() == p.len(),
                forall|i: int| 0 <= i < parts@.len() ==> #[trigger] parts@[i]@ == p[i],
                constraints@.len() == k - 2,
                forall|j: int|
                    0 <= j < constraints@.len() ==> constraint_ok(trimmed(p[j + 2]), #[trigger] constraints@[j]),
                forall|j: int| 2 <= j < k ==> constraint_known(trimmed(#[trigger] p[j])),
                optional == exists|j: int| 2 <= j < k && marks_optional(trimmed(#[trigger] p[j])),
            decreases parts@.len() - k,
        {
            proof {
                assert(parts@[k as int]@ == p[k as int]);
            }
            let cs = trim(parts[k].as_str());
            if eq_str(cs, "optional") || eq_str(cs, "nullable") {
                optional = true;
            }
            match FieldConstraint::from_str(cs) {
                Err(e) => {
                    proof {
                        assert(!constraint_known(trimmed(p[k as int])));
                        assert(!definition_ok(s@));
                    }
                    return Err(e);
                },
                Ok(c) => {
                    constraints.push(c);
                },
            }
            proof {
                assert(parts@[k as int]@ == p[k as int]);
            }
            k = k + 1;
        }
        Ok(FieldDefinition { name: name.to_string(), field_type, constraints, optional })
    }

    /// The definition's text: name, type and each constraint, joined by colons.
    pub fn to_string(&self) -> (r: String)
        ensures
            r@ == self.name@ + ":"@ + self.field_type.spec_name() + constraints_text(self.constraints@),
    {
        let mut result = self.name.clone();
        result.append(":");
        result.append(self.field_type.to_string());
        let ghost head = result@;
        let mut i: usize = 0;
        while i < self.constraints.len()
            invariant
                i <= self.constraints@.len(),
                result@ == head + constraints_text(self.constraints@.subrange(0, i as int)),
            decreases self.constraints@.len() - i,
        {
            result.append(":");
            let t = self.constraints[i].to_string();
            result.append(t.as_str());
            proof {
                let sub = self.constraints@.subrange(0, i + 1);
                assert(sub.drop_last() =~= self.constraints@.subrange(0, i as int));
            }
            i = i + 1;
        }
        proof {
            assert(self.constraints@.subrange(0, i as int) =~= self.constraints@);
        }
        result
    }

    pub fn has_constraint(&self, constraint: &FieldConstraint) -> (r: bool)
        ensures
            r == exists|i: int|
                0 <= i < self.constraints@.len() && same_constraint(
                    #[trigger] self.constraints@[i],
                    *constraint,
                ),
    {
        let mut i: usize = 0;
        while i < self.constraints.len()
            invariant
                i <= self.constraints@.len(),
                forall|j: int| 0 <= j < i ==> !same_constraint(#[trigger] self.constraints@[j], *constraint),
            decreases self.constraints@.len() - i,
        {
            if constraint_eq(&self.constraints[i], constraint) {
                return true;
            }
            i = i + 1;
        }
        false
    }

    pub fn is_primary_key(&self) -> (r: bool)
        ensures
            r == has_pk(*self),
    {
        let r = self.has_constraint(&FieldConstraint::PrimaryKey);
        proof {
            if r {
                let i = choose|i: int|
                    0 <= i < self.constraints@.len() && same_constraint(
                        #[trigger] self.constraints@[i],
                        FieldConstraint::PrimaryKey,
                    );
                assert(self.constraints@[i] is PrimaryKey);
            }
            if has_pk(*self) {
                let i = choose|i: int|
                    0 <= i < self.constraints@.len() && (#[trigger] self.constraints@[i]) is PrimaryKey;
                assert(same_constraint(self.constraints@[i], FieldConstraint::PrimaryKey));
            }
        }
        r
    }

    pub fn is_unique(&self) -> (r: bool)
        ensures
            r == exists|i: int|
                0 <= i < self.constraints@.len() && (#[trigger] self.constraints@[i]) is Unique,
    {
        let r = self.has_constraint(&FieldConstraint::Unique);
        proof {
            if r {
                let i = choose|i: int|
                    0 <= i < self.constraints@.len() && same_constraint(
                        #[trigger] self.constraints@[i],
                        FieldConstraint::Unique,
                    );
                assert(self.constraints@[i] is Unique);
            }
            if exists|i: int| 0 <= i < self.constraints@.len() && (#[trigger] self.constraints@[i]) is Unique {
                let i = choose|i: int|
                    0 <= i < self.constraints@.len() && (#[trigger] self.constraints@[i]) is Unique;
                assert(same_constraint(self.constraints@[i], FieldConstraint::Unique));
            }
        }
        r
    }

    pub fn is_nullable(&self) -> (r: bool)
        ensures
            r == (self.optional || exists|i: int|
                0 <= i < self.constraints@.len() && (#[trigger] self.constraints@[i]) is Nullable),
    {
        let n = self.has_constraint(&FieldConstraint::Nullable);
        proof {
            if n {
                let i = choose|i: int|
                    0 <= i < self.constraints@.len() && same_constraint(
                        #[trigger] self.constraints@[i],
                        FieldConstraint::Nullable,
                    );
                assert(self.constraints@[i] is Nullable);
            }
            if exists|i: int| 0 <= i < self.constraints@.len() && (#[trigger] self.constraints@[i]) is Nullable {
                let i = choose|i: int|
                    0 <= i < self.constraints@.len() && (#[trigger] self.constraints@[i]) is Nullable;
                assert(same_constraint(self.constraints@[i], FieldConstraint::Nullable));
            }
        }
        self.optional || n
    }
}

/// The name a definition text gives its field.
pub open spec fn parsed_name(text: Seq<char>) -> Seq<char> {
    trimmed(pieces(text)[0])
}

/// Whether a definition text marks its field as the primary key.
pub open spec fn text_has_pk(text: Seq<char>) -> bool {
    exists|j: int| 2 <= j < pieces(text).len() && trimmed(#[trigger] pieces(text)[j]) == "primary_key"@
}

pub open spec fn pk_count(ts: Seq<Seq<char>>) -> nat
    decreases ts.len(),
{
    if ts.len() == 0 {
        0
    } else {
        pk_count(ts.drop_last()) + if text_has_pk(ts.last()) {
            1nat
        } else {
            0nat
        }
    }
}

/// A list of definitions is accepted when it is non-empty, every entry is
/// valid, no two name the same field, and at most one is a primary key.
pub open spec fn field_list_ok(ts: Seq<Seq<char>>) -> bool {
    &&& ts.len() > 0
    &&& forall|i: int| 0 <= i < ts.len() ==> definition_ok(#[trigger] ts[i])
    &&& names_distinct(ts)
    &&& pk_count(ts) <= 1
}

/// No two definition texts name the same field.
pub open spec fn names_distinct(ts: Seq<Seq<char>>) -> bool {
    forall|i: int, j: int|
        0 <= i < j < ts.len() ==> parsed_name(#[trigger] ts[i]) != parsed_name(#[trigger] ts[j])
}

proof fn lemma_pk_text(t: Seq<char>, c: FieldConstraint)
    requires
        constraint_ok(t, c),
    ensures
        c is PrimaryKey <==> t == "primary_key"@,
{
    reveal_strlit("primary_key");
    reveal_strlit("unique");
    reveal_strlit("nullable");
    reveal_strlit("optional");
    reveal_strlit("default:");
    reveal_strlit("foreign_key:");
    if t == "primary_key"@ {
        assert(t != "unique"@) by {
            assert(t.len() != "unique"@.len());
        }
    }
}

proof fn lemma_defines_pk(text: Seq<char>, f: FieldDefinition)
    requires
        defines(text, f),
    ensures
        has_pk(f) == text_has_pk(text),
{
    let p = pieces(text);
    if has_pk(f) {
        let i = choose|i: int| 0 <= i < f.constraints@.len() && (#[trigger] f.constraints@[i]) is PrimaryKey;
        lemma_pk_text(trimmed(p[i + 2]), f.constraints@[i]);
        assert(trimmed(p[i + 2]) == "primary_key"@);
    }
    if text_has_pk(text) {
        let j = choose|j: int| 2 <= j < p.len() && trimmed(#[trigger] p[j]) == "primary_key"@;
        assert(constraint_ok(trimmed(p[(j - 2) + 2]), f.constraints@[j - 2]));
        lemma_pk_text(trimmed(p[j]), f.constraints@[j - 2]);
        assert(f.constraints@[j - 2] is PrimaryKey);
    }
}

fn find_name(names: &Vec<String>, name: &String) -> (r: Option<usize>)
    ensures
        match r {
            Some(j) => j < names@.len() && names@[j as int]@ == name@,
            None => forall|j: int| 0 <= j < names@.len() ==> (#[trigger] names@[j])@ != name@,
        },
{
    let mut j: usize = 0;
    while j < names.len()
        invariant
            j <= names@.len(),
            forall|i: int| 0 <= i < j ==> (#[trigger] names@[i])@ != name@,
        decreases names@.len() - j,
    {
        if names[j] == *name {
            return Some(j);
        }
        j = j + 1;
    }
    None
}

/// Parses a list of definitions, refusing an empty list, an invalid entry,
/// a repeated name, and more than one primary key.
pub fn validate_field_list(fields: &Vec<String>) -> (r: Result<Vec<FieldDefinition>, BindingError>)
    ensures
        r is Ok <==> field_list_ok(fields@.map_values(|s: String| s@)),
        r is Ok ==> r->Ok_0@.len() == fields@.len() && forall|i: int|
            0 <= i < fields@.len() ==> defines(fields@[i]@, #[trigger] r->Ok_0@[i]),
        (forall|i: int| 0 <= i < fields@.len() ==> definition_ok(#[trigger] fields@[i]@)) && !names_distinct(
            fields@.map_values(|s: String| s@),
        ) ==> r is Err && is_prefix("Duplicate field name: '"@, r->Err_0->Validation_0@),
{
    let ghost ts = fields@.map_values(|s: String| s@);
    if fields.len() == 0 {
        return Err(BindingError::validation("At least one field must be specified"));
    }
    let mut names: Vec<String> = Vec::new();
    let mut parsed: Vec<FieldDefinition> = Vec::new();
    let mut pk: usize = 0;
    let mut i: usize = 0;
    while i < fields.len()
        invariant
            ts == fields@.map_values(|s: String| s@),
            i <= fields@.len(),
            names@.len() == i,
            parsed@.len() == i,
            pk <= i,
            pk == pk_count(ts.subrange(0, i as int)),
            forall|j: int| 0 <= j < i ==> definition_ok(#[trigger] ts[j]),
            forall|j: int| 0 <= j < i ==> defines(ts[j], #[trigger] parsed@[j]),
            forall|j: int| 0 <= j < i ==> (#[trigger] names@[j])@ == parsed_name(ts[j]),
            forall|a: int, b: int| 0 <= a < b < i ==> parsed_name(#[trigger] ts[a]) != parsed_name(#[trigger] ts[b]),
        decreases fields@.len() - i,
    {
        assert(ts[i as int] == fields@[i as int]@);
        let field = match FieldDefinition::from_str(fields[i].as_str()) {
            Err(e) => {
                proof {
                    assert(!definition_ok(fields@[i as int]@));
                }
                return Err(e);
            },
            Ok(f) => f,
        };
        match find_name(&names, &field.name) {
            Some(j) => {
                proof {
                    assert(parsed_name(ts[j as int]) == parsed_name(ts[i as int]));
                }
                let mut m = "Duplicate field name: '".to_string();
                let ghost head = m@;
                m.append(field.name.as_str());
                m.append("'. Each field name must be unique");
                proof {
                    assert(m@.subrange(0, head.len() as int) =~= head);
                }
                return Err(BindingError::Validation(m));
            },
            None => {
                proof {
                    assert(field.name@ == parsed_name(ts[i as int]));
                    assert forall|a: int| 0 <= a < i implies parsed_name(#[trigger] ts[a])
                        != parsed_name(ts[i as int]) by {
                        assert(names@[a]@ == parsed_name(ts[a]));
                    }
                }
            },
        }
        proof {
            lemma_defines_pk(ts[i as int], field);
            assert(ts.subrange(0, i + 1).drop_last() =~= ts.subrange(0, i as int));
        }
        if field.is_primary_key() {
            pk = pk + 1;
        }
        names.push(field.name.clone());
        parsed.push(field);
        i = i + 1;
    }
    proof {
        assert(ts.subrange(0, i as int) =~= ts);
    }
    if pk > 1 {
        return Err(BindingError::validation("Only one field can be marked as primary key"));
    }
    Ok(parsed)
}

} // verus!
