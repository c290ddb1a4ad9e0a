use crate::models::{strings_view, DiscoveredService};
use handlebars::{Handlebars, RenderErrorReason};
use serde_json::Value;
use vstd::prelude::*;
use vstd::string::StrSliceExecFns;

verus! {

/// What strict Handlebars rendering gives for a template, over a context that
/// holds the discovered service under `service` and the supplied variables at
/// the top level: the rendered text; or, for a variable that the context lacks,
/// its path; or no name, for any other failure.
pub uninterp spec fn render_of(
    template: Seq<char>,
    service: (Seq<char>, Seq<char>, u16, Seq<Seq<char>>),
    vars: Seq<(Seq<char>, Seq<char>)>,
) -> Result<Seq<char>, Option<Seq<char>>>;

/// The values that templates of one launch attempt are rendered against: the
/// discovered service, and the variables supplied so far, in the order they
/// were supplied.
#[derive(Clone, Debug, PartialEq, Eq)]
pub struct RenderContext {
    pub service: DiscoveredService,
    pub vars: Vec<(String, String)>,
}

/// The texts of a list of name and value pairs.
pub open spec fn pairs_view(v: Seq<(String, String)>) -> Seq<(Seq<char>, Seq<char>)> {
    v.map_values(|p: (String, String)| (p.0@, p.1@))
}

/// Whether a variable of the given name has been supplied.
pub open spec fn has_var(vars: Seq<(Seq<char>, Seq<char>)>, name: Seq<char>) -> bool {
    exists|i: int| 0 <= i < vars.len() && #[trigger] vars[i].0 == name
}

/// The texts of a rendering outcome.
pub open spec fn outcome_view(r: Result<String, Option<String>>) -> Result<
    Seq<char>,
    Option<Seq<char>>,
> {
    match r {
        Ok(s) => Ok(s@),
        Err(Some(v)) => Err(Some(v@)),
        Err(None) => Err(None),
    }
}

impl RenderContext {
    /// A context for a freshly discovered service, with no variables yet.
    pub fn new(service: DiscoveredService) -> (r: Self)
        ensures
            r.service == service,
            r.vars@.len() == 0,
    {
        RenderContext { service, vars: Vec::new() }
    }

    /// Whether a variable of the given name has been supplied.
    pub fn has_var(&self, name: &String) -> (r: bool)
        ensures
            r == has_var(pairs_view(self.vars@), name@),
    {
        let ghost vars = pairs_view(self.vars@);
        let mut i: usize = 0;
        while i < self.vars.len()
            invariant
                i <= self.vars@.len(),
                vars == pairs_view(self.vars@),
                forall|j: int| 0 <= j < i ==> vars[j].0 != name@,
            decreases self.vars@.len() - i,
        {
            if self.vars[i].0 == *name {
                assert(vars[i as int].0 == name@);
                return true;
            }
            i += 1;
        }
        false
    }
}

/// Whether a character may stand between the `{{` that opens an expression
/// and the `*` that makes it a decorator: whitespace, `~` or `#`.
pub open spec fn decorator_gap(c: char) -> bool {
    c == ' ' || c == '\t' || c == '\n' || c == '\r' || c == '~' || c == '#'
}

/// Whether the template opens a decorator expression or block: `{{`, then
/// only whitespace, `~` or `#`, then `*`. Inline partials are declared this
/// way, and an inline partial that includes itself recurses without end, so
/// such templates are never handed to the renderer.
pub open spec fn opens_decorator(t: Seq<char>) -> bool {
    exists|i: int, j: int|
        0 <= i && i + 2 <= j < t.len() && #[trigger] t[i] == '{' && t[i + 1] == '{'
            && (forall|k: int| i + 2 <= k < j ==> decorator_gap(t[k])) && #[trigger] t[j] == '*'
}

/// Whether the template opens a decorator expression or block.
pub fn opens_decorator_exec(t: &str) -> (r: bool)
    ensures
        r == opens_decorator(t@),
{
    let n = t.unicode_len();
    let mut i: usize = 0;
    while i < n
        invariant
            n == t@.len(),
            i <= n,
            forall|a: int, b: int|
                0 <= a < i && a + 2 <= b < n && #[trigger] t@[a] == '{' && t@[a + 1] == '{' && (
                forall|k: int| a + 2 <= k < b ==> decorator_gap(t@[k])) ==> #[trigger] t@[b] != '*',
        decreases n - i,
    {
        if i + 1 < n && t.get_char(i) == '{' && t.get_char(i + 1) == '{' {
            let mut j: usize = i + 2;
            while j < n && is_decorator_gap(t.get_char(j))
                invariant
                    n == t@.len(),
                    i + 2 <= j <= n,
                    forall|k: int| i + 2 <= k < j ==> decorator_gap(t@[k]),
                decreases n - j,
            {
                j += 1;
            }
            if j < n && t.get_char(j) == '*' {
                assert(t@[i as int] == '{' && t@[j as int] == '*');
                return true;
            }
            assert forall|b: int|
                i + 2 <= b < n && (forall|k: int| i + 2 <= k < b ==> decorator_gap(t@[k])) implies t@[b]
                != '*' by {
                if b > j {
                    assert(decorator_gap(t@[j as int]));
                }
            }
        }
        i += 1;
    }
    proof {
        if opens_decorator(t@) {
            let (a, b) = choose|a: int, b: int|
                0 <= a && a + 2 <= b < t@.len() && #[trigger] t@[a] == '{' && t@[a + 1] == '{'
                    && (forall|k: int| a + 2 <= k < b ==> decorator_gap(t@[k])) && #[trigger] t@[b]
                    == '*';
            assert(a < i);
        }
    }
    false
}

fn is_decorator_gap(c: char) -> (r: bool)
    ensures
        r == decorator_gap(c),
{
    c == ' ' || c == '\t' || c == '\n' || c == '\r' || c == '~' || c == '#'
}

/// Relies on `handlebars::Handlebars::render_template` with strict mode on,
/// whose outcome is a function of the template and the context data: `Ok`
/// with the text, or a `MissingVariable` error with the path that the context
/// lacks. Any other error is reported without a name. Without decorators a
/// fresh registry has no partials, so rendering cannot recurse without end.
#[verifier::external_body]
pub(crate) fn render_strict(template: &str, ctx: &RenderContext) -> (r: Result<String, Option<String>>)
    requires
        !opens_decorator(template@),
    ensures
        outcome_view(r) == render_of(template@, ctx.service@, pairs_view(ctx.vars@)),
{
    let s = &ctx.service;
    let service = Value::from_iter([
        ("fullname", Value::from(s.fullname.clone())),
        ("hostname", s.hostname.clone().into()),
        ("port", s.port.into()),
        ("addresses", s.addresses.clone().into()),
    ]);
    let mut data: serde_json::Map<String, Value> = ctx.vars.iter().map(|(k, v)| (k.clone(), Value::from(v.clone()))).collect();
    data.insert("service".into(), service);
    let mut reg = Handlebars::new();
    reg.set_strict_mode(true);
    reg.render_template(template, &data).map_err(|e| match e.reason() {
        RenderErrorReason::MissingVariable(path) => path.clone(),
        _ => None,
    })
}

} // verus!
