//! The tool capability registry and the built-in echo tool.
use crate::json::{find_key, get_member, has_key, lookup, first_key, JsonValue};
use crate::json::{lemma_has_key_exists, lemma_push_fresh};
use crate::calc::{calculation, evaluate};
use crate::text::{decimal, upper_of, uppercase};
use crate::types::{
    elements, member_key, member_str, member_value, members, num_json, obj2, obj3, obj5, str_json,
    CallToolResponse, Content, Tool,
};
use vstd::prelude::*;

verus! {

/// Timeout of a tool that declares none, in seconds.
pub const DEFAULT_TIMEOUT_SECS: u64 = 30;

pub open spec fn conflict_message(name: Seq<char>) -> Seq<char> {
    "Tool '"@ + name + "' already registered"@
}

pub open spec fn not_found_message(name: Seq<char>) -> Seq<char> {
    "Tool '"@ + name + "' not found"@
}

/// A tool's own failure, naming the tool.
pub open spec fn failure_message(name: Seq<char>, detail: Seq<char>) -> Seq<char> {
    "Tool '"@ + name + "' failed: "@ + detail
}

pub open spec fn timeout_message(name: Seq<char>, secs: u64) -> Seq<char> {
    "Tool '"@ + name + "' execution timed out after "@ + decimal(secs as nat) + "s"@
}

/// Failures of the registry.
#[derive(Debug)]
pub enum RegistryError {
    Conflict { name: String },
    NotFound { name: String },
    InvalidParams { message: String },
    ExecutionFailed { name: String, message: String },
    Timeout { name: String, seconds: u64 },
}

impl RegistryError {
    pub open spec fn spec_message(&self) -> Seq<char> {
        match self {
            RegistryError::Conflict { name } => conflict_message(name@),
            RegistryError::NotFound { name } => not_found_message(name@),
            RegistryError::InvalidParams { message } => message@,
            RegistryError::ExecutionFailed { name, message } => failure_message(name@, message@),
            RegistryError::Timeout { name, seconds } => timeout_message(name@, *seconds),
        }
    }

    /// Human-readable description of the failure.
    pub fn message(&self) -> (r: String)
        ensures
            r@ == self.spec_message(),
    {
        match self {
            RegistryError::Conflict { name } => {
                let mut s = "Tool '".to_string();
                s.append(name.as_str());
                s.append("' already registered");
                s
            },
            RegistryError::NotFound { name } => {
                let mut s = "Tool '".to_string();
                s.append(name.as_str());
                s.append("' not found");
                s
            },
            RegistryError::InvalidParams { message } => message.clone(),
            RegistryError::ExecutionFailed { name, message } => {
                let mut s = "Tool '".to_string();
                s.append(name.as_str());
                s.append("' failed: ");
                s.append(message.as_str());
                s
            },
            RegistryError::Timeout { name, seconds } => {
                let mut s = "Tool '".to_string();
                s.append(name.as_str());
                s.append("' execution timed out after ");
                let d = crate::calc::decimal_string(*seconds as u128);
                s.append(d.as_str());
                s.append("s");
                s
            },
        }
    }
}

/// A capability that the server exposes by name. Implementations describe
/// themselves, check arguments, and do their work; each states these in its
/// spec functions.
pub trait McpTool {
    /// Whether `t` is this tool's own description.
    spec fn spec_def_ok(&self, t: Tool) -> bool;

    /// Whether the tool accepts these arguments.
    spec fn spec_accepts(&self, args: Seq<(String, JsonValue)>) -> bool;

    /// Why the tool rejects these arguments.
    spec fn spec_rejection(&self, args: Seq<(String, JsonValue)>) -> Seq<char>;

    /// What holds of the result of a run on these arguments.
    spec fn spec_result(&self, args: Seq<(String, JsonValue)>, r: Result<CallToolResponse, String>) -> bool;

    /// The tool's deadline, in seconds.
    spec fn spec_timeout(&self) -> u64;

    fn tool_def(&self) -> (r: Tool)
        ensures
            self.spec_def_ok(r),
    ;

    fn validate_args(&self, args: &Vec<(String, JsonValue)>) -> (r: Result<(), String>)
        ensures
            r is Ok <==> self.spec_accepts(args@),
            r is Err ==> r->Err_0@ == self.spec_rejection(args@),
    ;

    fn execute(&self, args: &Vec<(String, JsonValue)>) -> (r: Result<CallToolResponse, String>)
        ensures
            self.spec_result(args@, r),
    ;

    fn timeout_secs(&self) -> (r: u64)
        ensures
            r == self.spec_timeout(),
    ;
}

/// How a tool's run ended.
#[derive(Debug)]
pub enum ToolOutcome {
    Completed(Result<CallToolResponse, String>),
    TimedOut,
}

/// What a call to `name` with deadline `secs` gives for each way the run can end.
pub open spec fn call_result_matches(
    name: Seq<char>,
    secs: u64,
    outcome: ToolOutcome,
    r: Result<CallToolResponse, RegistryError>,
) -> bool {
    match outcome {
        ToolOutcome::Completed(Ok(c)) => r == Ok::<CallToolResponse, RegistryError>(c),
        ToolOutcome::Completed(Err(m)) => r matches Err(RegistryError::ExecutionFailed { name: n, message })
            && n@ == name && message == m,
        ToolOutcome::TimedOut => r matches Err(RegistryError::Timeout { name: n, seconds })
            && n@ == name && seconds == secs,
    }
}

/// Turns the end of a tool's run into the registry's answer: its result, its
/// failure, or a timeout error that names the tool and the bound.
pub fn finish_call(name: &str, timeout_secs: u64, outcome: ToolOutcome) -> (r: Result<
    CallToolResponse,
    RegistryError,
>)
    ensures
        call_result_matches(name@, timeout_secs, outcome, r),
{
    match outcome {
        ToolOutcome::Completed(Ok(c)) => Ok(c),
        ToolOutcome::Completed(Err(m)) => Err(
            RegistryError::ExecutionFailed { name: name.to_string(), message: m },
        ),
        ToolOutcome::TimedOut => Err(
            RegistryError::Timeout { name: name.to_string(), seconds: timeout_secs },
        ),
    }
}

/// Names are pairwise distinct.
pub open spec fn unique_keys<T>(entries: Seq<(String, T)>) -> bool {
    forall|i: int, j: int|
        0 <= i < entries.len() && 0 <= j < entries.len() && i != j ==> entries[i].0@
            != entries[j].0@
}

/// Registration on the model: refused when the name is taken, else appended.
pub open spec fn spec_register<T>(entries: Seq<(String, T)>, name: String, tool: T) -> (Seq<
    (String, T),
>, bool) {
    if has_key(entries, name@) {
        (entries, false)
    } else {
        (entries.push((name, tool)), true)
    }
}

/// Mapping from tool names to implementations. Names are unique.
pub struct ToolRegistry<T> {
    tools: Vec<(String, T)>,
}

impl<T> ToolRegistry<T> {
    /// Names are never registered twice.
    #[verifier::type_invariant]
    spec fn names_unique(&self) -> bool {
        unique_keys(self.tools@)
    }
}

impl<T: McpTool> ToolRegistry<T> {
    /// Registered entries, in order of registration.
    pub closed spec fn entries(&self) -> Seq<(String, T)> {
        self.tools@
    }

    pub fn new() -> (r: Self)
        ensures
            unique_keys(r.entries()),
            r.entries().len() == 0,
    {
        ToolRegistry { tools: Vec::new() }
    }

    /// Registers `tool` under `name`; a name already taken is refused and the
    /// registry is left as it was.
    pub fn register_tool(&mut self, name: String, tool: T) -> (r: Result<(), RegistryError>)
        ensures
            unique_keys(final(self).entries()),
            final(self).entries() == spec_register(old(self).entries(), name, tool).0,
            r is Ok == spec_register(old(self).entries(), name, tool).1,
            r is Err ==> r == Err::<(), RegistryError>(RegistryError::Conflict { name }),
    {
        proof {
            use_type_invariant(&*self);
        }
        match find_key(&self.tools, name.as_str()) {
            Some(_) => Err(RegistryError::Conflict { name }),
            None => {
                proof {
                    assert forall|j: int| 0 <= j < self.tools@.len() implies self.tools@[j].0@
                        != name@ by {
                        lemma_has_key_exists(self.tools@, name@);
                    }
                }
                let mut tools: Vec<(String, T)> = Vec::new();
                std::mem::swap(&mut tools, &mut self.tools);
                tools.push((name, tool));
                std::mem::swap(&mut tools, &mut self.tools);
                Ok(())
            },
        }
    }

    /// Removes the tool registered under `name`, and says whether there was one.
    pub fn unregister_tool(&mut self, name: &str) -> (r: bool)
        ensures
            unique_keys(final(self).entries()),
            r == has_key(old(self).entries(), name@),
            r ==> final(self).entries() == old(self).entries().remove(
                first_key(old(self).entries(), name@),
            ),
            !r ==> final(self).entries() == old(self).entries(),
    {
        proof {
            use_type_invariant(&*self);
        }
        match find_key(&self.tools, name) {
            Some(i) => {
                let ghost before = self.tools@;
                let mut tools: Vec<(String, T)> = Vec::new();
                std::mem::swap(&mut tools, &mut self.tools);
                let _ = tools.remove(i);
                proof {
                    assert forall|a: int, b: int|
                        0 <= a < tools@.len() && 0 <= b < tools@.len() && a != b implies tools@[a].0@
                            != tools@[b].0@ by {
                        let a2 = if a < i { a } else { a + 1 };
                        let b2 = if b < i { b } else { b + 1 };
                        assert(tools@[a] == before[a2]);
                        assert(tools@[b] == before[b2]);
                    }
                }
                std::mem::swap(&mut tools, &mut self.tools);
                true
            },
            None => false,
        }
    }

    pub fn has_tool(&self, name: &str) -> (r: bool)
        ensures
            r == has_key(self.entries(), name@),
    {
        find_key(&self.tools, name).is_some()
    }

    pub fn tool_count(&self) -> (r: usize)
        ensures
            r == self.entries().len(),
    {
        self.tools.len()
    }

    /// The definitions of all registered tools, in order of registration.
    pub fn list_tools(&self) -> (r: Vec<Tool>)
        ensures
            r@.len() == self.entries().len(),
            forall|i: int| 0 <= i < r@.len() ==> self.entries()[i].1.spec_def_ok(#[trigger] r@[i]),
    {
        let mut out: Vec<Tool> = Vec::new();
        let mut i: usize = 0;
        while i < self.tools.len()
            invariant
                i <= self.tools@.len(),
                out@.len() == i,
                forall|j: int| 0 <= j < i ==> self.tools@[j].1.spec_def_ok(#[trigger] out@[j]),
            decreases self.tools@.len() - i,
        {
            out.push(self.tools[i].1.tool_def());
            i = i + 1;
        }
        out
    }

    /// Looks up `name` and checks `args` with the tool, giving the tool's
    /// deadline when the call may go ahead.
    pub fn prepare_call(&self, name: &str, args: &Vec<(String, JsonValue)>) -> (r: Result<
        u64,
        RegistryError,
    >)
        ensures
            !has_key(self.entries(), name@) ==> (r matches Err(RegistryError::NotFound { name: n })
                && n@ == name@),
            has_key(self.entries(), name@) && !lookup(self.entries(), name@).unwrap().spec_accepts(
                args@,
            ) ==> (r matches Err(RegistryError::InvalidParams { message }) && message@ == lookup(
                self.entries(),
                name@,
            ).unwrap().spec_rejection(args@)),
            has_key(self.entries(), name@) && lookup(self.entries(), name@).unwrap().spec_accepts(
                args@,
            ) ==> r == Ok::<u64, RegistryError>(lookup(self.entries(), name@).unwrap().spec_timeout()),
    {
        match find_key(&self.tools, name) {
            None => Err(RegistryError::NotFound { name: name.to_string() }),
            Some(i) => {
                let tool = &self.tools[i].1;
                match tool.validate_args(args) {
                    Err(message) => Err(RegistryError::InvalidParams { message }),
                    Ok(()) => Ok(tool.timeout_secs()),
                }
            },
        }
    }

    /// Runs the tool registered under `name` to completion. Lookup and
    /// argument failures come first; after that the tool's own result or
    /// failure is given back.
    pub fn execute_tool(&self, name: &str, args: &Vec<(String, JsonValue)>) -> (r: Result<
        CallToolResponse,
        RegistryError,
    >)
        ensures
            !has_key(self.entries(), name@) ==> (r matches Err(RegistryError::NotFound { name: n })
                && n@ == name@),
            has_key(self.entries(), name@) && !lookup(self.entries(), name@).unwrap().spec_accepts(
                args@,
            ) ==> (r matches Err(RegistryError::InvalidParams { message }) && message@ == lookup(
                self.entries(),
                name@,
            ).unwrap().spec_rejection(args@)),
            has_key(self.entries(), name@) && lookup(self.entries(), name@).unwrap().spec_accepts(
                args@,
            ) ==> exists|res: Result<CallToolResponse, String>|
                lookup(self.entries(), name@).unwrap().spec_result(args@, res)
                    && #[trigger] call_result_matches(
                    name@,
                    lookup(self.entries(), name@).unwrap().spec_timeout(),
                    ToolOutcome::Completed(res),
                    r,
                ),
    {
        match self.prepare_call(name, args) {
            Err(e) => Err(e),
            Ok(secs) => {
                let i = find_key(&self.tools, name).unwrap();
                let res = self.tools[i].1.execute(args);
                let ghost g = res;
                let r = finish_call(name, secs, ToolOutcome::Completed(res));
                proof {
                    assert(call_result_matches(name@, secs, ToolOutcome::Completed(g), r));
                }
                r
            },
        }
    }
}

impl<T: McpTool> ToolRegistry<T> {
    /// Runs the tool registered under `name` on `args`.
    pub fn run(&self, name: &str, args: &Vec<(String, JsonValue)>) -> (r: Result<
        CallToolResponse,
        String,
    >)
        requires
            has_key(self.entries(), name@),
        ensures
            lookup(self.entries(), name@).unwrap().spec_result(args@, r),
    {
        let i = find_key(&self.tools, name).unwrap();
        self.tools[i].1.execute(args)
    }
}

/// Registering a name that is already taken fails and leaves every entry,
/// and so every listed definition, as it was.
pub proof fn lemma_duplicate_registration<T>(
    entries: Seq<(String, T)>,
    name: String,
    first: T,
    second: T,
)
    requires
        !has_key(entries, name@),
    ensures
        ({
            let after_first = spec_register(entries, name, first).0;
            let after_second = spec_register(after_first, name, second);
            &&& !after_second.1
            &&& after_second.0 == after_first
            &&& lookup(after_second.0, name@) == Some(first)
        }),
{
    let e = (name, first);
    lemma_push_fresh(entries, e, name@);
}

/// Registering distinct fresh names one after another keeps every earlier
/// name and adds the new one: nothing is lost and nothing is doubled.
pub proof fn lemma_register_fresh_keeps_all<T>(entries: Seq<(String, T)>, name: String, tool: T)
    requires
        unique_keys(entries),
        !has_key(entries, name@),
    ensures
        ({
            let (after, ok) = spec_register(entries, name, tool);
            &&& ok
            &&& unique_keys(after)
            &&& after.len() == entries.len() + 1
            &&& forall|k: Seq<char>| has_key(after, k) <==> (has_key(entries, k) || k == name@)
        }),
{
    let e = (name, tool);
    lemma_has_key_exists(entries, name@);
    assert forall|k: Seq<char>| has_key(entries.push(e), k) <==> (has_key(entries, k) || k
        == name@) by {
        lemma_push_fresh(entries, e, k);
    }
}

/// Registrations applied one after another, in the given order; the flag
/// says whether every one succeeded.
pub open spec fn register_all<T>(entries: Seq<(String, T)>, regs: Seq<(String, T)>) -> (Seq<
    (String, T),
>, bool)
    decreases regs.len(),
{
    if regs.len() == 0 {
        (entries, true)
    } else {
        let (before, ok) = register_all(entries, regs.drop_last());
        let (after, last_ok) = spec_register(before, regs.last().0, regs.last().1);
        (after, ok && last_ok)
    }
}

/// Registering N tools with distinct names, none registered before, in any
/// order the callers are served in (registration holds the registry
/// exclusively, so concurrent callers are served one after another): every
/// registration succeeds, and the registry then holds the earlier tools
/// followed by exactly these, each name once.
pub proof fn lemma_register_all_distinct<T>(entries: Seq<(String, T)>, regs: Seq<(String, T)>)
    requires
        unique_keys(entries),
        unique_keys(regs),
        forall|i: int| 0 <= i < regs.len() ==> !has_key(entries, (#[trigger] regs[i]).0@),
    ensures
        register_all(entries, regs).1,
        register_all(entries, regs).0 == entries + regs,
        register_all(entries, regs).0.len() == entries.len() + regs.len(),
        unique_keys(register_all(entries, regs).0),
    decreases regs.len(),
{
    if regs.len() > 0 {
        let init = regs.drop_last();
        assert(unique_keys(init)) by {
            assert forall|a: int, b: int|
                0 <= a < init.len() && 0 <= b < init.len() && a != b implies init[a].0@
                    != init[b].0@ by {
                assert(init[a] == regs[a] && init[b] == regs[b]);
            }
        }
        assert forall|i: int| 0 <= i < init.len() implies !has_key(entries, (#[trigger] init[i]).0@) by {
            assert(init[i] == regs[i]);
        }
        lemma_register_all_distinct(entries, init);
        let before = entries + init;
        let last = regs.last();
        assert(!has_key(before, last.0@)) by {
            lemma_has_key_exists(before, last.0@);
            lemma_has_key_exists(entries, last.0@);
            assert(!has_key(entries, regs[regs.len() - 1].0@));
            if has_key(before, last.0@) {
                let j = choose|j: int| 0 <= j < before.len() && before[j].0@ == last.0@;
                if j >= entries.len() {
                    assert(before[j] == regs[j - entries.len()]);
                } else {
                    assert(before[j] == entries[j]);
                }
            }
        }
        lemma_register_fresh_keeps_all(before, last.0, last.1);
        assert(before.push(last) =~= entries + regs);
    } else {
        assert(entries + regs =~= entries);
    }
}

/// The built-in tool that returns its `text` argument, upper-cased on request.
pub struct EchoTool;

pub open spec fn echo_accepts(args: Seq<(String, JsonValue)>) -> bool {
    &&& lookup(args, "text"@) matches Some(t) && t.is_str()
    &&& lookup(args, "uppercase"@) matches Some(u) ==> u.is_bool()
}

/// The text that echo answers with: the `text` argument, upper-cased when
/// `uppercase` is `true`.
pub open spec fn echo_text(args: Seq<(String, JsonValue)>) -> Seq<char> {
    let t = lookup(args, "text"@).unwrap()->Str_0@;
    if lookup(args, "uppercase"@) == Some(JsonValue::Bool(true)) {
        upper_of(t)
    } else {
        t
    }
}

pub open spec fn echo_output_ok(c: CallToolResponse, args: Seq<(String, JsonValue)>) -> bool {
    &&& c.content@.len() == 1
    &&& c.content@[0] matches Content::Text { text } && text@ == echo_text(args)
    &&& c.is_progress is None
}

/// Echo's input schema: an object with a string `text`, a boolean
/// `uppercase` that defaults to false, and `text` required.
pub open spec fn echo_schema_ok(v: JsonValue) -> bool {
    let props = member_value(v, 1);
    let text = member_value(props, 0);
    let upper = member_value(props, 1);
    let required = member_value(v, 2);
    &&& v is Object
    &&& members(v).len() == 3
    &&& member_str(v, 0, "type"@, "object"@)
    &&& member_key(v, 1, "properties"@)
    &&& props is Object
    &&& members(props).len() == 2
    &&& member_key(props, 0, "text"@)
    &&& text is Object
    &&& members(text).len() == 2
    &&& member_str(text, 0, "type"@, "string"@)
    &&& member_str(text, 1, "description"@, "Text to echo back"@)
    &&& member_key(props, 1, "uppercase"@)
    &&& upper is Object
    &&& members(upper).len() == 3
    &&& member_str(upper, 0, "type"@, "boolean"@)
    &&& member_str(upper, 1, "description"@, "Convert to uppercase"@)
    &&& member_key(upper, 2, "default"@)
    &&& member_value(upper, 2) == JsonValue::Bool(false)
    &&& member_key(v, 2, "required"@)
    &&& required is Array
    &&& elements(required).len() == 1
    &&& str_json(elements(required)[0], "text"@)
}

/// A single text block.
pub fn text_response(text: String) -> (r: CallToolResponse)
    ensures
        r.content@.len() == 1,
        r.content@[0] == (Content::Text { text }),
        r.is_progress is None,
{
    let mut content: Vec<Content> = Vec::new();
    content.push(Content::Text { text });
    CallToolResponse { content, is_progress: None }
}

impl McpTool for EchoTool {
    open spec fn spec_def_ok(&self, t: Tool) -> bool {
        &&& t.name@ == "echo"@
        &&& t.description@ == "Echo back the input text"@
        &&& echo_schema_ok(t.input_schema)
        &&& t.output_schema is None
        &&& t.metadata is None
    }

    open spec fn spec_accepts(&self, args: Seq<(String, JsonValue)>) -> bool {
        echo_accepts(args)
    }

    open spec fn spec_rejection(&self, args: Seq<(String, JsonValue)>) -> Seq<char> {
        if lookup(args, "text"@) is None {
            "Missing required 'text' argument"@
        } else if !lookup(args, "text"@).unwrap().is_str() {
            "'text' must be a string"@
        } else {
            "'uppercase' must be a boolean"@
        }
    }

    open spec fn spec_result(&self, args: Seq<(String, JsonValue)>, r: Result<CallToolResponse, String>) -> bool {
        echo_accepts(args) ==> r is Ok && echo_output_ok(r->Ok_0, args)
    }

    open spec fn spec_timeout(&self) -> u64 {
        DEFAULT_TIMEOUT_SECS
    }

    fn tool_def(&self) -> (r: Tool) {
        let text_prop = obj2(
            "type",
            JsonValue::Str("string".to_string()),
            "description",
            JsonValue::Str("Text to echo back".to_string()),
        );
        let upper_prop = obj3(
            "type",
            JsonValue::Str("boolean".to_string()),
            "description",
            JsonValue::Str("Convert to uppercase".to_string()),
            "default",
            JsonValue::Bool(false),
        );
        let props = obj2("text", text_prop, "uppercase", upper_prop);
        let mut required: Vec<JsonValue> = Vec::new();
        required.push(JsonValue::Str("text".to_string()));
        let schema = obj3(
            "type",
            JsonValue::Str("object".to_string()),
            "properties",
            props,
            "required",
            JsonValue::Array(required),
        );
        Tool {
            name: "echo".to_string(),
            description: "Echo back the input text".to_string(),
            input_schema: schema,
            output_schema: None,
            metadata: None,
        }
    }

    fn validate_args(&self, args: &Vec<(String, JsonValue)>) -> (r: Result<(), String>) {
        match get_member(args, "text") {
            None => Err("Missing required 'text' argument".to_string()),
            Some(t) => {
                if !t.is_string() {
                    return Err("'text' must be a string".to_string());
                }
                match get_member(args, "uppercase") {
                    Some(u) => {
                        if !u.is_boolean() {
                            return Err("'uppercase' must be a boolean".to_string());
                        }
                        Ok(())
                    },
                    None => Ok(()),
                }
            },
        }
    }

    fn execute(&self, args: &Vec<(String, JsonValue)>) -> (r: Result<CallToolResponse, String>) {
        let text = match get_member(args, "text") {
            Some(v) => match v.as_str() {
                Some(s) => s,
                None => return Err("Missing 'text' argument".to_string()),
            },
            None => return Err("Missing 'text' argument".to_string()),
        };
        let upper = match get_member(args, "uppercase") {
            Some(v) => match v.as_bool() {
                Some(b) => b,
                None => false,
            },
            None => false,
        };
        let out = if upper {
            uppercase(text.as_str())
        } else {
            text.clone()
        };
        Ok(text_response(out))
    }

    fn timeout_secs(&self) -> (r: u64) {
        DEFAULT_TIMEOUT_SECS
    }
}

/// Value of a text of decimal digits.
pub open spec fn digits_value(s: Seq<char>) -> nat
    decreases s.len(),
{
    if s.len() == 0 {
        0
    } else {
        digits_value(s.drop_last()) * 10 + ((s.last() as u32) - ('0' as u32)) as nat
    }
}

/// A non-negative integer that fits in 64 bits, written in decimal.
pub open spec fn u64_text(s: Seq<char>) -> bool {
    &&& s.len() > 0
    &&& forall|i: int| 0 <= i < s.len() ==> crate::text::is_ascii_digit(#[trigger] s[i])
    &&& digits_value(s) <= u64::MAX
}

proof fn lemma_digits_value_grows(s: Seq<char>, i: int)
    requires
        0 <= i <= s.len(),
        forall|j: int| 0 <= j < s.len() ==> crate::text::is_ascii_digit(#[trigger] s[j]),
    ensures
        digits_value(s.subrange(0, i)) <= digits_value(s),
    decreases s.len() - i,
{
    if i < s.len() {
        lemma_digits_value_grows(s, i + 1);
        let t = s.subrange(0, i + 1);
        assert(t.drop_last() =~= s.subrange(0, i));
        assert(crate::text::is_ascii_digit(s[i]));
    } else {
        assert(s.subrange(0, i) =~= s);
    }
}

/// Whether a JSON number's text is a non-negative 64-bit integer.
pub fn is_u64_text(t: &str) -> (r: bool)
    ensures
        r == u64_text(t@),
{
    let n = t.unicode_len();
    if n == 0 {
        return false;
    }
    let mut acc: u64 = 0;
    let mut i: usize = 0;
    while i < n
        invariant
            i <= n,
            n == t@.len(),
            acc == digits_value(t@.subrange(0, i as int)),
            forall|j: int| 0 <= j < i ==> crate::text::is_ascii_digit(#[trigger] t@[j]),
        decreases n - i,
    {
        let c = t.get_char(i);
        let u = c as u32;
        if !('0' as u32 <= u && u <= '9' as u32) {
            return false;
        }
        let d = (u - '0' as u32) as u64;
        proof {
            assert(t@.subrange(0, i + 1).drop_last() =~= t@.subrange(0, i as int));
        }
        match acc.checked_mul(10) {
            None => {
                return is_u64_overflow(t, i);
            },
            Some(m) => match m.checked_add(d) {
                None => {
                    return is_u64_overflow(t, i);
                },
                Some(v) => {
                    acc = v;
                },
            },
        }
        i = i + 1;
    }
    proof {
        assert(t@.subrange(0, n as int) =~= t@);
    }
    true
}

/// Once the digits up to `i` exceed 64 bits, the text is not a 64-bit
/// integer, whatever follows.
fn is_u64_overflow(t: &str, i: usize) -> (r: bool)
    requires
        i < t@.len(),
        forall|j: int| 0 <= j < i ==> crate::text::is_ascii_digit(#[trigger] t@[j]),
        crate::text::is_ascii_digit(t@[i as int]),
        digits_value(t@.subrange(0, i + 1)) > u64::MAX,
    ensures
        r == u64_text(t@),
{
    let n = t.unicode_len();
    let mut k: usize = i + 1;
    while k < n
        invariant
            i < k <= n,
            n == t@.len(),
            forall|j: int| 0 <= j < k ==> crate::text::is_ascii_digit(#[trigger] t@[j]),
        decreases n - k,
    {
        let u = t.get_char(k) as u32;
        if !('0' as u32 <= u && u <= '9' as u32) {
            return false;
        }
        k = k + 1;
    }
    proof {
        lemma_digits_value_grows(t@, i + 1);
    }
    false
}

/// The built-in calculator: one binary operation on two decimal numbers.
pub struct CalculateTool;

pub open spec fn calculate_accepts(args: Seq<(String, JsonValue)>) -> bool {
    &&& lookup(args, "expression"@) matches Some(e) && e.is_str()
    &&& lookup(args, "precision"@) matches Some(p) ==> (p is Number && u64_text(p->Number_0@))
}

/// The calculator's input schema: a string `expression`, a `precision`
/// between 0 and 10 defaulting to 2, and `expression` required.
pub open spec fn calculate_schema_ok(v: JsonValue) -> bool {
    let props = member_value(v, 1);
    let expr = member_value(props, 0);
    let prec = member_value(props, 1);
    let required = member_value(v, 2);
    &&& v is Object
    &&& members(v).len() == 3
    &&& member_str(v, 0, "type"@, "object"@)
    &&& member_key(v, 1, "properties"@)
    &&& props is Object
    &&& members(props).len() == 2
    &&& member_key(props, 0, "expression"@)
    &&& expr is Object
    &&& members(expr).len() == 2
    &&& member_str(expr, 0, "type"@, "string"@)
    &&& member_str(expr, 1, "description"@, "Mathematical expression to evaluate (e.g., '2 + 3 * 4')"@)
    &&& member_key(props, 1, "precision"@)
    &&& prec is Object
    &&& members(prec).len() == 5
    &&& member_str(prec, 0, "type"@, "integer"@)
    &&& member_str(prec, 1, "description"@, "Number of decimal places"@)
    &&& member_key(prec, 2, "default"@) && num_json(member_value(prec, 2), "2"@)
    &&& member_key(prec, 3, "minimum"@) && num_json(member_value(prec, 3), "0"@)
    &&& member_key(prec, 4, "maximum"@) && num_json(member_value(prec, 4), "10"@)
    &&& member_key(v, 2, "required"@)
    &&& required is Array
    &&& elements(required).len() == 1
    &&& str_json(elements(required)[0], "expression"@)
}

/// A result of a single text block holding `text`.
pub open spec fn single_text(c: CallToolResponse, text: Seq<char>) -> bool {
    &&& c.content@.len() == 1
    &&& c.content@[0] matches Content::Text { text: x } && x@ == text
    &&& c.is_progress is None
}

/// Timeout of the calculator, in seconds.
pub const CALCULATE_TIMEOUT_SECS: u64 = 10;

impl McpTool for CalculateTool {
    open spec fn spec_def_ok(&self, t: Tool) -> bool {
        &&& t.name@ == "calculate"@
        &&& t.description@ == "Perform basic mathematical calculations"@
        &&& calculate_schema_ok(t.input_schema)
        &&& t.output_schema is None
        &&& t.metadata is None
    }

    open spec fn spec_accepts(&self, args: Seq<(String, JsonValue)>) -> bool {
        calculate_accepts(args)
    }

    open spec fn spec_rejection(&self, args: Seq<(String, JsonValue)>) -> Seq<char> {
        if lookup(args, "expression"@) is None {
            "Missing required 'expression' argument"@
        } else if !lookup(args, "expression"@).unwrap().is_str() {
            "'expression' must be a string"@
        } else {
            "'precision' must be a positive integer"@
        }
    }

    open spec fn spec_result(&self, args: Seq<(String, JsonValue)>, r: Result<CallToolResponse, String>) -> bool {
        match lookup(args, "expression"@) {
            Some(JsonValue::Str(e)) => match calculation(e@) {
                Ok(t) => r is Ok && single_text(r->Ok_0, "Result: "@ + t),
                Err(m) => r is Err && r->Err_0@ == m,
            },
            _ => r is Err && r->Err_0@ == "Missing 'expression' argument"@,
        }
    }

    open spec fn spec_timeout(&self) -> u64 {
        CALCULATE_TIMEOUT_SECS
    }

    fn tool_def(&self) -> (r: Tool) {
        let expression = obj2(
            "type",
            JsonValue::Str("string".to_string()),
            "description",
            JsonValue::Str("Mathematical expression to evaluate (e.g., '2 + 3 * 4')".to_string()),
        );
        let precision = obj5(
            "type",
            JsonValue::Str("integer".to_string()),
            "description",
            JsonValue::Str("Number of decimal places".to_string()),
            "default",
            JsonValue::Number("2".to_string()),
            "minimum",
            JsonValue::Number("0".to_string()),
            "maximum",
            JsonValue::Number("10".to_string()),
        );
        let props = obj2("expression", expression, "precision", precision);
        let mut required: Vec<JsonValue> = Vec::new();
        required.push(JsonValue::Str("expression".to_string()));
        Tool {
            name: "calculate".to_string(),
            description: "Perform basic mathematical calculations".to_string(),
            input_schema: obj3(
                "type",
                JsonValue::Str("object".to_string()),
                "properties",
                props,
                "required",
                JsonValue::Array(required),
            ),
            output_schema: None,
            metadata: None,
        }
    }

    fn validate_args(&self, args: &Vec<(String, JsonValue)>) -> (r: Result<(), String>) {
        match get_member(args, "expression") {
            None => return Err("Missing required 'expression' argument".to_string()),
            Some(e) => {
                if !e.is_string() {
                    return Err("'expression' must be a string".to_string());
                }
            },
        }
        match get_member(args, "precision") {
            None => Ok(()),
            Some(JsonValue::Number(t)) => {
                if is_u64_text(t.as_str()) {
                    Ok(())
                } else {
                    Err("'precision' must be a positive integer".to_string())
                }
            },
            Some(_) => Err("'precision' must be a positive integer".to_string()),
        }
    }

    fn execute(&self, args: &Vec<(String, JsonValue)>) -> (r: Result<CallToolResponse, String>) {
        let expression = match get_member(args, "expression") {
            Some(JsonValue::Str(e)) => e,
            _ => return Err("Missing 'expression' argument".to_string()),
        };
        match evaluate(expression.as_str()) {
            Err(e) => Err(e),
            Ok(value) => {
                let mut text = "Result: ".to_string();
                text.append(value.as_str());
                Ok(text_response(text))
            },
        }
    }

    fn timeout_secs(&self) -> (r: u64) {
        CALCULATE_TIMEOUT_SECS
    }
}

/// The tools a server starts with.
pub enum BuiltinTool {
    Echo(EchoTool),
    Calculate(CalculateTool),
}

impl McpTool for BuiltinTool {
    open spec fn spec_def_ok(&self, t: Tool) -> bool {
        match self {
            BuiltinTool::Echo(x) => x.spec_def_ok(t),
            BuiltinTool::Calculate(x) => x.spec_def_ok(t),
        }
    }

    open spec fn spec_accepts(&self, args: Seq<(String, JsonValue)>) -> bool {
        match self {
            BuiltinTool::Echo(x) => x.spec_accepts(args),
            BuiltinTool::Calculate(x) => x.spec_accepts(args),
        }
    }

    open spec fn spec_rejection(&self, args: Seq<(String, JsonValue)>) -> Seq<char> {
        match self {
            BuiltinTool::Echo(x) => x.spec_rejection(args),
            BuiltinTool::Calculate(x) => x.spec_rejection(args),
        }
    }

    open spec fn spec_result(&self, args: Seq<(String, JsonValue)>, r: Result<CallToolResponse, String>) -> bool {
        match self {
            BuiltinTool::Echo(x) => x.spec_result(args, r),
            BuiltinTool::Calculate(x) => x.spec_result(args, r),
        }
    }

    open spec fn spec_timeout(&self) -> u64 {
        match self {
            BuiltinTool::Echo(x) => x.spec_timeout(),
            BuiltinTool::Calculate(x) => x.spec_timeout(),
        }
    }

    fn tool_def(&self) -> (r: Tool) {
        match self {
            BuiltinTool::Echo(x) => x.tool_def(),
            BuiltinTool::Calculate(x) => x.tool_def(),
        }
    }

    fn validate_args(&self, args: &Vec<(String, JsonValue)>) -> (r: Result<(), String>) {
        match self {
            BuiltinTool::Echo(x) => x.validate_args(args),
            BuiltinTool::Calculate(x) => x.validate_args(args),
        }
    }

    fn execute(&self, args: &Vec<(String, JsonValue)>) -> (r: Result<CallToolResponse, String>) {
        match self {
            BuiltinTool::Echo(x) => x.execute(args),
            BuiltinTool::Calculate(x) => x.execute(args),
        }
    }

    fn timeout_secs(&self) -> (r: u64) {
        match self {
            BuiltinTool::Echo(x) => x.timeout_secs(),
            BuiltinTool::Calculate(x) => x.timeout_secs(),
        }
    }
}

/// A registry holding `echo` and `calculate`.
pub fn builtin_registry() -> (r: ToolRegistry<BuiltinTool>)
    ensures
        r.entries().len() == 2,
        r.entries()[0].0@ == "echo"@,
        r.entries()[0].1 is Echo,
        r.entries()[1].0@ == "calculate"@,
        r.entries()[1].1 is Calculate,
{
    let mut registry = ToolRegistry::new();
    let _ = registry.register_tool("echo".to_string(), BuiltinTool::Echo(EchoTool));
    let calc = "calculate".to_string();
    proof {
        reveal_strlit("echo");
        reveal_strlit("calculate");
        assert(calc@ != "echo"@) by {
            assert(calc@.len() != "echo"@.len());
        }
        crate::json::lemma_has_key_exists(registry.entries(), calc@);
    }
    let _ = registry.register_tool(calc, BuiltinTool::Calculate(CalculateTool));
    registry
}

} // verus!
