//! Resolution of a request against a document: path template, operation,
//! response by status code, and example.
use vstd::prelude::*;
use crate::examples::{example_value, resolve_example_value, select_example, selected_example};
use crate::model::{find_key, key_index, lemma_key_index_bounds, lookup, Document, MediaExamples, Method, Operation, PathItem, Response};
use crate::path::{lemma_template_index_bounds, load_path, template_index};
use crate::query::query_params;
use crate::refs::{refers_to, resolve, resolved, MAX_REF_DEPTH};
use crate::text::chars_of;

verus! {

/// Why a request could not be resolved.
#[derive(Clone, Copy, Debug, PartialEq, Eq, Structural)]
pub enum ResolveError {
    /// No path matches.
    PathNotFound,
    /// The path has no operation for the method.
    OperationNotFound,
    /// The operation has no response for the status code, or its reference
    /// chain is broken or too long.
    ResponseNotFound,
}

/// What the engine needs of an HTTP request.
pub struct Request {
    pub method: Method,
    /// The decoded path, without the query string.
    pub path: String,
    /// The raw query string, without the leading `?`.
    pub query: String,
    /// The media type whose examples are wanted, such as `application/json`.
    pub content_type: String,
    /// The status code whose response is wanted.
    pub status: u16,
}

pub open spec fn digit_char(d: nat) -> char {
    seq!['0', '1', '2', '3', '4', '5', '6', '7', '8', '9'][d as int]
}

/// `n` written in decimal, without leading zeros.
pub open spec fn decimal(n: nat) -> Seq<char>
    decreases n,
{
    if n < 10 {
        seq![digit_char(n)]
    } else {
        decimal(n / 10).push(digit_char(n % 10))
    }
}

/// Index of the first operation at or after `start` for `method`.
pub open spec fn method_index(operations: Seq<(Method, Operation)>, method: Method, start: int) -> Option<int>
    decreases operations.len() - start,
{
    if start < 0 || start >= operations.len() {
        None
    } else if operations[start].0 == method {
        Some(start)
    } else {
        method_index(operations, method, start + 1)
    }
}

/// The operation of `item` for `method`.
pub open spec fn operation_for(item: PathItem, method: Method) -> Option<Operation> {
    match method_index(item.operations@, method, 0) {
        Some(i) => Some(item.operations@[i].1),
        None => None,
    }
}

/// The response of `operation` for `status`, references followed.
pub open spec fn response_for(document: Document, operation: Operation, status: u16) -> Option<Response> {
    match lookup(operation.responses@, decimal(status as nat)) {
        Some(entry) => resolved(document.components.responses@, entry, MAX_REF_DEPTH as nat),
        None => None,
    }
}

/// The example that `document` gives for `request`.
pub open spec fn example_for(document: Document, request: Request) -> Option<serde_json::Value> {
    match template_index(document.paths@, request.path@, 0) {
        Some(i) => match operation_for(document.paths@[i].1, request.method) {
            Some(op) => match response_for(document, op, request.status) {
                Some(response) => selected_example(
                    document,
                    response,
                    request.content_type@,
                    request.path@,
                    query_params(request.query@),
                ),
                None => None,
            },
            None => None,
        },
        None => None,
    }
}

/// The example of `response` under `content_type` when no request is there
/// to choose: the literal example, or the named example `default`.
pub open spec fn plain_example(document: Document, response: Response, content_type: Seq<char>) -> Option<serde_json::Value> {
    match lookup(response.content@, content_type) {
        Some(media) => match media.examples {
            Some(examples) => named_example(document, examples, seq!['d', 'e', 'f', 'a', 'u', 'l', 't'], true),
            None => None,
        },
        None => None,
    }
}

/// The example called `name` among `examples`; a literal example counts
/// only where `literal_ok`.
pub open spec fn named_example(document: Document, examples: MediaExamples, name: Seq<char>, literal_ok: bool) -> Option<serde_json::Value> {
    match examples {
        MediaExamples::Single(v) => if literal_ok {
            Some(v)
        } else {
            None
        },
        MediaExamples::Named(entries) => match lookup(entries@, name) {
            Some(entry) => example_value(document, entry),
            None => None,
        },
    }
}

fn digit(d: u16) -> (c: char)
    requires
        d < 10,
    ensures
        c == digit_char(d as nat),
{
    let digits = vec!['0', '1', '2', '3', '4', '5', '6', '7', '8', '9'];
    assert(digits@ =~= seq!['0', '1', '2', '3', '4', '5', '6', '7', '8', '9']);
    digits[d as usize]
}

/// The characters of `n` in decimal.
pub fn decimal_chars(n: u16) -> (r: Vec<char>)
    ensures
        r@ == decimal(n as nat),
    decreases n,
{
    if n < 10 {
        let r = vec![digit(n)];
        assert(r@ =~= decimal(n as nat));
        r
    } else {
        let mut r = decimal_chars(n / 10);
        r.push(digit(n % 10));
        r
    }
}

/// The operation of `path_item` for `method`.
pub fn load_method(path_item: &PathItem, method: Method) -> (r: Option<&Operation>)
    ensures
        refers_to(r, operation_for(*path_item, method)),
{
    let mut i: usize = 0;
    while i < path_item.operations.len()
        invariant
            i <= path_item.operations@.len(),
            method_index(path_item.operations@, method, 0) == method_index(
                path_item.operations@,
                method,
                i as int,
            ),
        decreases path_item.operations.len() - i,
    {
        if path_item.operations[i].0 == method {
            return Some(&path_item.operations[i].1);
        }
        i = i + 1;
    }
    None
}

/// The operation for `method` under the path template written exactly as
/// `path`.
pub fn load_endpoint<'a>(document: &'a Document, path: &str, method: Method) -> (r: Result<&'a Operation, ResolveError>)
    ensures
        match lookup(document.paths@, path@) {
            None => r == Err::<&Operation, ResolveError>(ResolveError::PathNotFound),
            Some(item) => match operation_for(item, method) {
                None => r == Err::<&Operation, ResolveError>(ResolveError::OperationNotFound),
                Some(op) => r matches Ok(x) && *x == op,
            },
        },
{
    let key = chars_of(path);
    match find_key(&document.paths, key.as_slice()) {
        None => Err(ResolveError::PathNotFound),
        Some(i) => {
            proof {
                lemma_key_index_bounds(document.paths@, key@, 0);
            }
            match load_method(&document.paths[i].1, method) {
                None => Err(ResolveError::OperationNotFound),
                Some(op) => Ok(op),
            }
        },
    }
}

/// The response of `op` for `status`, with references into the document's
/// registry followed.
pub fn load_response<'a>(document: &'a Document, op: &'a Operation, status: u16) -> (r: Result<&'a Response, ResolveError>)
    ensures
        match response_for(*document, *op, status) {
            None => r == Err::<&Response, ResolveError>(ResolveError::ResponseNotFound),
            Some(response) => r matches Ok(x) && *x == response,
        },
{
    let key = decimal_chars(status);
    match find_key(&op.responses, key.as_slice()) {
        None => Err(ResolveError::ResponseNotFound),
        Some(i) => {
            proof {
                lemma_key_index_bounds(op.responses@, key@, 0);
            }
            match resolve(&document.components.responses, &op.responses[i].1) {
                None => Err(ResolveError::ResponseNotFound),
                Some(response) => Ok(response),
            }
        },
    }
}

/// The example called `example_name` among `examples`, with references
/// followed; a literal example has no name and is never returned.
pub fn get_example<'a>(document: &'a Document, examples: &'a MediaExamples, example_name: &str) -> (r: Option<&'a serde_json::Value>)
    ensures
        refers_to(r, named_example(*document, *examples, example_name@, false)),
{
    match examples {
        MediaExamples::Single(_) => None,
        MediaExamples::Named(entries) => {
            let key = chars_of(example_name);
            match find_key(entries, key.as_slice()) {
                None => None,
                Some(i) => {
                    proof {
                        lemma_key_index_bounds(entries@, key@, 0);
                    }
                    resolve_example_value(document, &entries[i].1)
                },
            }
        },
    }
}

/// The example of `response` under `content_type` with no request to
/// choose by: the literal example, or else the one named `default`.
pub fn load_example<'a>(document: &'a Document, response: &'a Response, content_type: &str) -> (r: Option<&'a serde_json::Value>)
    ensures
        refers_to(r, plain_example(*document, *response, content_type@)),
{
    let key = chars_of(content_type);
    match find_key(&response.content, key.as_slice()) {
        None => None,
        Some(k) => {
            proof {
                lemma_key_index_bounds(response.content@, key@, 0);
            }
            match &response.content[k].1.examples {
                None => None,
                Some(MediaExamples::Single(v)) => Some(v),
                Some(examples) => {
                    let r = get_example(document, examples, "default");
                    proof {
                        reveal_strlit("default");
                        assert("default"@ =~= seq!['d', 'e', 'f', 'a', 'u', 'l', 't']);
                    }
                    r
                },
            }
        },
    }
}

/// A loaded document, ready to answer requests.
pub struct Spec {
    pub document: Document,
}

impl Spec {
    pub fn new(document: Document) -> (r: Spec)
        ensures
            r.document == document,
    {
        Spec { document }
    }

    /// The example to answer `request` with: the first path template that
    /// matches, its operation for the method, its response for the status
    /// code, and the example of that response that the request picks.
    pub fn get_example(&self, request: &Request) -> (r: Option<&serde_json::Value>)
        ensures
            refers_to(r, example_for(self.document, *request)),
    {
        proof {
            lemma_template_index_bounds(self.document.paths@, request.path@, 0);
        }
        let item = match load_path(&self.document, request.path.as_str()) {
            Some(item) => item,
            None => {
                return None;
            },
        };
        let op = match load_method(item, request.method) {
            Some(op) => op,
            None => {
                return None;
            },
        };
        let response = match load_response(&self.document, op, request.status) {
            Ok(response) => response,
            Err(_) => {
                return None;
            },
        };
        select_example(
            &self.document,
            response,
            request.content_type.as_str(),
            request.path.as_str(),
            request.query.as_str(),
        )
    }
}

proof fn lemma_digit_injective(a: nat, b: nat)
    requires
        a < 10,
        b < 10,
        digit_char(a) == digit_char(b),
    ensures
        a == b,
{
    let digits = seq!['0', '1', '2', '3', '4', '5', '6', '7', '8', '9'];
    assert(forall|i: int, j: int| 0 <= i < 10 && 0 <= j < 10 && i != j ==> digits[i] != digits[j]);
}

/// Different numbers have different decimal forms.
pub proof fn lemma_decimal_injective(a: nat, b: nat)
    requires
        decimal(a) == decimal(b),
    ensures
        a == b,
    decreases a,
{
    let da = decimal(a);
    if a >= 10 {
        assert(decimal(a / 10).len() >= 1) by {
            reveal_with_fuel(decimal, 2);
        }
    }
    if b >= 10 {
        assert(decimal(b / 10).len() >= 1) by {
            reveal_with_fuel(decimal, 2);
        }
    }
    assert(a < 10 ==> da.len() == 1);
    assert(b < 10 ==> decimal(b).len() == 1);
    assert(a >= 10 ==> da.len() == decimal(a / 10).len() + 1);
    assert(b >= 10 ==> decimal(b).len() == decimal(b / 10).len() + 1);
    if a < 10 && b < 10 {
        assert(da[0] == decimal(b)[0]);
        lemma_digit_injective(a, b);
    } else if a >= 10 && b >= 10 {
        assert(da.last() == decimal(b).last());
        lemma_digit_injective(a % 10, b % 10);
        assert(da.drop_last() =~= decimal(a / 10));
        assert(decimal(b).drop_last() =~= decimal(b / 10));
        lemma_decimal_injective(a / 10, b / 10);
    }
}

/// A status code reads only the response entry under its own decimal code:
/// different codes never read the same entry, and a code without an entry
/// gives no response.
pub proof fn lemma_status_selects_own_entry(document: Document, op: Operation, status: u16, other: u16)
    ensures
        status != other ==> decimal(status as nat) != decimal(other as nat),
        key_index(op.responses@, decimal(status as nat), 0) is None ==> response_for(document, op, status) is None,
        key_index(op.responses@, decimal(status as nat), 0) matches Some(i) ==> (op.responses@[i].0@ == decimal(
            status as nat,
        ) && response_for(document, op, status) == resolved(
            document.components.responses@,
            op.responses@[i].1,
            MAX_REF_DEPTH as nat,
        )),
{
    lemma_key_index_bounds(op.responses@, decimal(status as nat), 0);
    if decimal(status as nat) == decimal(other as nat) {
        lemma_decimal_injective(status as nat, other as nat);
    }
}

} // verus!
