//! Domain-modelling building blocks: errors, versions, identifiers, field
//! validation and paged query results.
use crate::text::{decimal, trim, trimmed};
use vstd::prelude::*;

verus! {

/// Failures of domain operations, each with its description.
#[derive(Debug)]
pub enum DddError {
    Validation(String),
    EntityNotFound(String),
    AggregateNotFound(String),
    Repository(String),
    Event(String),
    DomainService(String),
    Concurrency(String),
    Infrastructure(String),
    Configuration(String),
    Other(String),
}

pub type DddResult<T> = Result<T, DddError>;

impl DddError {
    pub fn validation(message: &str) -> (r: DddError)
        ensures
            r matches DddError::Validation(m) && m@ == message@,
    {
        DddError::Validation(message.to_string())
    }

    pub fn entity_not_found(id: &str) -> (r: DddError)
        ensures
            r matches DddError::EntityNotFound(m) && m@ == id@,
    {
        DddError::EntityNotFound(id.to_string())
    }

    pub fn aggregate_not_found(id: &str) -> (r: DddError)
        ensures
            r matches DddError::AggregateNotFound(m) && m@ == id@,
    {
        DddError::AggregateNotFound(id.to_string())
    }

    pub fn repository(message: &str) -> (r: DddError)
        ensures
            r matches DddError::Repository(m) && m@ == message@,
    {
        DddError::Repository(message.to_string())
    }

    pub open spec fn spec_text(&self) -> Seq<char> {
        match self {
            DddError::Validation(m) => "Validation error: "@ + m@,
            DddError::EntityNotFound(m) => "Entity not found: "@ + m@,
            DddError::AggregateNotFound(m) => "Aggregate not found: "@ + m@,
            DddError::Repository(m) => "Repository error: "@ + m@,
            DddError::Event(m) => "Event error: "@ + m@,
            DddError::DomainService(m) => "Domain service error: "@ + m@,
            DddError::Concurrency(m) => "Concurrency error: "@ + m@,
            DddError::Infrastructure(m) => "Infrastructure error: "@ + m@,
            DddError::Configuration(m) => "Configuration error: "@ + m@,
            DddError::Other(m) => "Other error: "@ + m@,
        }
    }

    /// The error's description, prefixed by its kind.
    pub fn to_text(&self) -> (r: String)
        ensures
            r@ == self.spec_text(),
    {
        let (prefix, m) = match self {
            DddError::Validation(m) => ("Validation error: ", m),
            DddError::EntityNotFound(m) => ("Entity not found: ", m),
            DddError::AggregateNotFound(m) => ("Aggregate not found: ", m),
            DddError::Repository(m) => ("Repository error: ", m),
            DddError::Event(m) => ("Event error: ", m),
            DddError::DomainService(m) => ("Domain service error: ", m),
            DddError::Concurrency(m) => ("Concurrency error: ", m),
            DddError::Infrastructure(m) => ("Infrastructure error: ", m),
            DddError::Configuration(m) => ("Configuration error: ", m),
            DddError::Other(m) => ("Other error: ", m),
        };
        let mut s = prefix.to_string();
        s.append(m.as_str());
        s
    }
}

/// Version of an entity, counting its changes from zero.
#[derive(Debug, Clone, Copy, PartialEq, Eq, PartialOrd, Ord)]
pub struct Version(u32);

impl Version {
    pub closed spec fn spec_value(&self) -> u32 {
        self.0
    }

    pub fn new() -> (r: Version)
        ensures
            r.spec_value() == 0,
    {
        Version(0)
    }

    /// Counts one more change.
    pub fn increment(&mut self)
        requires
            old(self).spec_value() < u32::MAX,
        ensures
            final(self).spec_value() == old(self).spec_value() + 1,
    {
        self.0 = self.0 + 1;
    }

    pub fn value(&self) -> (r: u32)
        ensures
            r == self.spec_value(),
    {
        self.0
    }
}

impl Default for Version {
    fn default() -> (r: Version)
        ensures
            r.spec_value() == 0,
    {
        Version::new()
    }
}

/// Identifiers of entities, with a text form that reads back to the same
/// identifier.
pub trait Identifier: Sized {
    spec fn spec_text(&self) -> Seq<char>;

    fn as_string(&self) -> (r: String)
        ensures
            r@ == self.spec_text(),
    ;

    fn from_text(s: &str) -> (r: Result<Self, DddError>)
        ensures
            r is Ok ==> r->Ok_0.spec_text() == s@,
    ;
}

impl Identifier for String {
    open spec fn spec_text(&self) -> Seq<char> {
        self@
    }

    fn as_string(&self) -> (r: String) {
        self.clone()
    }

    fn from_text(s: &str) -> (r: Result<String, DddError>)
        ensures
            r is Ok,
    {
        Ok(s.to_string())
    }
}

pub open spec fn required_message(field: Seq<char>) -> Seq<char> {
    field + " is required"@
}

pub open spec fn too_short_message(field: Seq<char>, min: nat) -> Seq<char> {
    field + " must be at least "@ + decimal(min) + " characters"@
}

pub open spec fn too_long_message(field: Seq<char>, max: nat) -> Seq<char> {
    field + " must be at most "@ + decimal(max) + " characters"@
}

/// Whether an error is a validation failure with the given text.
pub open spec fn is_validation<T>(r: Result<T, DddError>, msg: Seq<char>) -> bool {
    r matches Err(DddError::Validation(m)) && m@ == msg
}

/// Field checks shared by entities and value objects.
pub struct EntityValidator;

impl EntityValidator {
    /// A required value, given already trimmed, must be present and non-empty.
    pub fn check_required(field: &str, trimmed_value: Option<&str>) -> (r: Result<(), DddError>)
        ensures
            r is Ok <==> (trimmed_value is Some && trimmed_value.unwrap()@.len() > 0),
            r is Err ==> is_validation(r, required_message(field@)),
    {
        match trimmed_value {
            Some(v) => {
                if !v.is_empty() {
                    Ok(())
                } else {
                    Err(DddError::Validation(concat(field, " is required")))
                }
            },
            None => Err(DddError::Validation(concat(field, " is required"))),
        }
    }

    /// A required value must be present and hold something besides white space.
    pub fn validate_required(field: &str, value: Option<&str>) -> (r: Result<(), DddError>)
        ensures
            r is Ok <==> (value is Some && trimmed(value.unwrap()@).len() > 0),
            r is Err ==> is_validation(r, required_message(field@)),
    {
        match value {
            Some(v) => EntityValidator::check_required(field, Some(trim(v))),
            None => EntityValidator::check_required(field, None),
        }
    }

    /// A value's length in bytes must lie within `min..=max`.
    pub fn validate_length(field: &str, value: &str, min: usize, max: usize) -> (r: Result<
        (),
        DddError,
    >)
        ensures
            value.len() < min ==> is_validation(r, too_short_message(field@, min as nat)),
            min <= value.len() && value.len() > max ==> is_validation(
                r,
                too_long_message(field@, max as nat),
            ),
            min <= value.len() <= max ==> r is Ok,
    {
        let n = value.len();
        if n < min {
            let mut s = field.to_string();
            s.append(" must be at least ");
            let d = crate::calc::decimal_string(min as u128);
            s.append(d.as_str());
            s.append(" characters");
            Err(DddError::Validation(s))
        } else if n > max {
            let mut s = field.to_string();
            s.append(" must be at most ");
            let d = crate::calc::decimal_string(max as u128);
            s.append(d.as_str());
            s.append(" characters");
            Err(DddError::Validation(s))
        } else {
            Ok(())
        }
    }

    /// An address must have the shape `local@domain.tld`.
    pub fn validate_email(email: &str) -> (r: Result<(), DddError>)
        ensures
            r is Ok <==> crate::text::email_shape(email@),
            r is Err ==> is_validation(r, "Invalid email format"@),
    {
        if crate::text::matches_email_pattern(email) {
            Ok(())
        } else {
            Err(DddError::validation("Invalid email format"))
        }
    }
}

fn concat(a: &str, b: &str) -> (r: String)
    ensures
        r@ == a@ + b@,
{
    let mut s = a.to_string();
    s.append(b);
    s
}

/// Direction of ordering in queries.
#[derive(Debug, Clone, Copy, PartialEq, Eq)]
pub enum SortOrder {
    Asc,
    Desc,
}

/// Items found by a query, with paging information when it was paged.
#[derive(Debug)]
pub struct QueryResult<T> {
    pub items: Vec<T>,
    pub total_count: Option<usize>,
    pub page: Option<u32>,
    pub page_size: Option<u32>,
}

impl<T> QueryResult<T> {
    pub fn new(items: Vec<T>) -> (r: Self)
        ensures
            r.items == items,
            r.total_count is None,
            r.page is None,
            r.page_size is None,
    {
        QueryResult { items, total_count: None, page: None, page_size: None }
    }

    pub fn with_pagination(self, page: u32, page_size: u32, total_count: usize) -> (r: Self)
        ensures
            r.items == self.items,
            r.page == Some(page),
            r.page_size == Some(page_size),
            r.total_count == Some(total_count),
    {
        QueryResult {
            items: self.items,
            total_count: Some(total_count),
            page: Some(page),
            page_size: Some(page_size),
        }
    }

    pub fn is_empty(&self) -> (r: bool)
        ensures
            r == (self.items@.len() == 0),
    {
        self.items.len() == 0
    }

    pub fn len(&self) -> (r: usize)
        ensures
            r == self.items@.len(),
    {
        self.items.len()
    }
}

/// The operations of `ops` other than `op`, in order.
pub open spec fn without_op(ops: Seq<Seq<char>>, op: Seq<char>) -> Seq<Seq<char>>
    decreases ops.len(),
{
    if ops.len() == 0 {
        Seq::empty()
    } else {
        let rest = without_op(ops.drop_last(), op);
        if ops.last() == op {
            rest
        } else {
            rest.push(ops.last())
        }
    }
}

/// A named domain service and the operations it handles.
#[derive(Debug)]
pub struct BaseDomainService {
    name: String,
    handled_operations: Vec<String>,
}

impl BaseDomainService {
    pub closed spec fn spec_name(&self) -> Seq<char> {
        self.name@
    }

    /// The handled operations, in order.
    pub closed spec fn operations(&self) -> Seq<Seq<char>> {
        self.handled_operations@.map_values(|o: String| o@)
    }

    pub fn new(name: &str, handled_operations: Vec<String>) -> (r: Self)
        ensures
            r.spec_name() == name@,
            r.operations() == handled_operations@.map_values(|o: String| o@),
    {
        BaseDomainService { name: name.to_string(), handled_operations }
    }

    pub fn name(&self) -> (r: &str)
        ensures
            r@ == self.spec_name(),
    {
        self.name.as_str()
    }

    pub fn add_handled_operation(&mut self, operation: &str)
        ensures
            final(self).spec_name() == old(self).spec_name(),
            final(self).operations() == old(self).operations().push(operation@),
    {
        self.handled_operations.push(operation.to_string());
        proof {
            assert(self.operations() =~= old(self).operations().push(operation@));
        }
    }

    /// Removes every occurrence of `operation`, keeping the others in order.
    pub fn remove_handled_operation(&mut self, operation: &str)
        ensures
            final(self).spec_name() == old(self).spec_name(),
            final(self).operations() == without_op(old(self).operations(), operation@),
    {
        let ghost ops0 = self.handled_operations@;
        let ghost ov = self.operations();
        let mut kept: Vec<String> = Vec::new();
        let mut i: usize = 0;
        let target = operation.to_string();
        while i < self.handled_operations.len()
            invariant
                i <= self.handled_operations@.len(),
                self.handled_operations@ == ops0,
                target@ == operation@,
                ov == ops0.map_values(|o: String| o@),
                kept@.map_values(|o: String| o@) == without_op(ov.subrange(0, i as int), operation@),
            decreases self.handled_operations@.len() - i,
        {
            proof {
                assert(ov.subrange(0, i + 1).drop_last() =~= ov.subrange(0, i as int));
                assert(ov.subrange(0, i + 1).last() == ops0[i as int]@);
            }
            if self.handled_operations[i] != target {
                let ghost before = kept@;
                kept.push(self.handled_operations[i].clone());
                proof {
                    assert(kept@.map_values(|o: String| o@) =~= before.map_values(|o: String| o@).push(
                        ops0[i as int]@,
                    ));
                }
            }
            i = i + 1;
        }
        proof {
            assert(ov.subrange(0, i as int) =~= ov);
        }
        self.handled_operations = kept;
    }

    /// Whether the service handles `operation`.
    pub fn can_handle(&self, operation: &str) -> (r: bool)
        ensures
            r == self.operations().contains(operation@),
    {
        let target = operation.to_string();
        let mut i: usize = 0;
        while i < self.handled_operations.len()
            invariant
                i <= self.handled_operations@.len(),
                target@ == operation@,
                forall|j: int| 0 <= j < i ==> (#[trigger] self.handled_operations@[j])@ != operation@,
            decreases self.handled_operations@.len() - i,
        {
            if self.handled_operations[i] == target {
                proof {
                    assert(self.operations()[i as int] == operation@);
                }
                return true;
            }
            i = i + 1;
        }
        proof {
            if self.operations().contains(operation@) {
                let j = choose|j: int| 0 <= j < self.operations().len() && self.operations()[j] == operation@;
                assert(self.handled_operations@[j]@ == operation@);
            }
        }
        false
    }
}

} // verus!
