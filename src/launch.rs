use crate::config::McpConfig;
use crate::models::{strings_view, DiscoveredService};
use crate::template::{
    has_var, opens_decorator, opens_decorator_exec, outcome_view, pairs_view, render_of,
    render_strict, RenderContext,
};
use vstd::prelude::*;

verus! {

/// A launch specification with every template substituted.
#[derive(Clone, Debug, PartialEq, Eq)]
pub enum LaunchPlan {
    Process { command: String, args: Vec<String>, envs: Vec<(String, String)> },
    Network { url: String, headers: Option<Vec<(String, String)>> },
}

/// Why a launch attempt gave up before a plan was ready.
#[derive(Clone, Debug, PartialEq, Eq)]
pub enum ResolveError {
    /// The value asked for this variable was not supplied.
    InputUnavailable(String),
    /// This variable was reported missing again after its value had been
    /// supplied: asking again would never end.
    RepeatedVariable(String),
    /// Rendering failed for another reason than a missing variable.
    RenderFailed,
}

/// What a launch attempt needs next.
#[derive(Clone, Debug, PartialEq, Eq)]
pub enum Progress {
    /// A value for this variable must be supplied before rendering can go on.
    InputRequired(String),
    /// Every template is rendered.
    Ready(LaunchPlan),
    /// The attempt failed; it does not launch anything.
    Failed(ResolveError),
}

/// The templates of a launch specification, in rendering order: the
/// arguments, then the environment values; or the URL, then the header values.
pub open spec fn templates_of(cfg: McpConfig) -> Seq<Seq<char>> {
    match cfg {
        McpConfig::Stdio { args, envs, .. } => strings_view(args@) + envs@.map_values(
            |e: (String, String)| e.1@,
        ),
        McpConfig::Sse { url, headers, .. } => seq![url@] + match headers {
            Some(h) => h@.map_values(|e: (String, String)| e.1@),
            None => Seq::empty(),
        },
    }
}

/// The keys of `pairs`, each with the value at the same index of `values`.
pub open spec fn rekeyed(pairs: Seq<(String, String)>, values: Seq<Seq<char>>) -> Seq<
    (Seq<char>, Seq<char>),
> {
    Seq::new(pairs.len(), |i: int| (pairs[i].0@, values[i]))
}

/// Whether a plan is the specification with its templates, in rendering
/// order, replaced by `rendered`.
pub open spec fn plan_matches(plan: LaunchPlan, cfg: McpConfig, rendered: Seq<Seq<char>>) -> bool {
    match (cfg, plan) {
        (
            McpConfig::Stdio { command, args, envs, .. },
            LaunchPlan::Process { command: c, args: a, envs: e },
        ) => {
            &&& c@ == command@
            &&& strings_view(a@) == rendered.take(args@.len() as int)
            &&& pairs_view(e@) == rekeyed(envs@, rendered.skip(args@.len() as int))
        },
        (McpConfig::Sse { url, headers, .. }, LaunchPlan::Network { url: u, headers: h }) => {
            &&& u@ == rendered[0]
            &&& headers is None <==> h is None
            &&& headers matches Some(hs) ==> pairs_view(h->0@) == rekeyed(hs@, rendered.skip(1))
        },
        _ => false,
    }
}

/// Renders the templates from index `done.len()` on, while rendering
/// succeeds: the texts rendered, and `Ok` when all are, or the failure that
/// stopped it. A template that opens a decorator fails without a name, and is
/// not rendered.
pub open spec fn render_run(
    tpls: Seq<Seq<char>>,
    service: (Seq<char>, Seq<char>, u16, Seq<Seq<char>>),
    vars: Seq<(Seq<char>, Seq<char>)>,
    done: Seq<Seq<char>>,
) -> (Seq<Seq<char>>, Result<(), Option<Seq<char>>>)
    decreases tpls.len() - done.len(),
{
    if done.len() < tpls.len() {
        if opens_decorator(tpls[done.len() as int]) {
            (done, Err(None))
        } else {
            match render_of(tpls[done.len() as int], service, vars) {
                Ok(text) => render_run(tpls, service, vars, done.push(text)),
                Err(e) => (done, Err(e)),
            }
        }
    } else {
        (done, Ok(()))
    }
}

/// One attempt to turn a launch specification into a plan for a discovered
/// service. Rendering pauses whenever a template names a variable that has no
/// value yet; the value is then supplied from outside, and rendering resumes.
pub struct LaunchAttempt {
    pub config: McpConfig,
    pub context: RenderContext,
    /// The texts of the templates rendered so far, in rendering order.
    pub rendered: Vec<String>,
    /// The variable whose value is awaited.
    pub pending: Option<String>,
    pub failure: Option<ResolveError>,
}

impl ResolveError {
    /// A copy of the error.
    pub fn duplicate(&self) -> (r: Self)
        ensures
            r == *self,
    {
        match self {
            ResolveError::InputUnavailable(k) => ResolveError::InputUnavailable(k.clone()),
            ResolveError::RepeatedVariable(k) => ResolveError::RepeatedVariable(k.clone()),
            ResolveError::RenderFailed => ResolveError::RenderFailed,
        }
    }
}

impl LaunchAttempt {
    /// Every variable is supplied once; the awaited one is not supplied yet;
    /// an attempt awaits input only while it has not failed and has templates
    /// left to render.
    pub open spec fn wf(&self) -> bool {
        let vars = pairs_view(self.context.vars@);
        let n = templates_of(self.config).len();
        &&& n <= usize::MAX
        &&& self.config.wf()
        &&& self.rendered@.len() <= n
        &&& forall|i: int, j: int| 0 <= i < j < vars.len() ==> vars[i].0 != vars[j].0
        &&& self.pending matches Some(p) ==> {
            &&& !has_var(vars, p@)
            &&& self.failure is None
            &&& self.rendered@.len() < n
        }
    }

    pub open spec fn templates(&self) -> Seq<Seq<char>> {
        templates_of(self.config)
    }

    /// An attempt that has rendered nothing and knows only the service.
    pub fn new(config: McpConfig, service: DiscoveredService) -> (r: Self)
        requires
            templates_of(config).len() <= usize::MAX,
            config.wf(),
        ensures
            r.wf(),
            r.config == config,
            r.context.service == service,
            r.context.vars@.len() == 0,
            r.rendered@.len() == 0,
            r.pending is None,
            r.failure is None,
    {
        LaunchAttempt {
            config,
            context: RenderContext::new(service),
            rendered: Vec::new(),
            pending: None,
            failure: None,
        }
    }

    fn template_count(&self) -> (r: usize)
        requires
            self.wf(),
        ensures
            r == self.templates().len(),
    {
        match &self.config {
            McpConfig::Stdio { args, envs, .. } => args.len() + envs.len(),
            McpConfig::Sse { headers, .. } => match headers {
                Some(h) => 1 + h.len(),
                None => 1,
            },
        }
    }

    fn template_at(&self, i: usize) -> (r: &String)
        requires
            i < self.templates().len(),
        ensures
            r@ == self.templates()[i as int],
    {
        match &self.config {
            McpConfig::Stdio { args, envs, .. } => {
                if i < args.len() {
                    &args[i]
                } else {
                    &envs[i - args.len()].1
                }
            },
            McpConfig::Sse { url, headers, .. } => {
                if i == 0 {
                    url
                } else {
                    match headers {
                        Some(h) => &h[i - 1].1,
                        None => url,
                    }
                }
            },
        }
    }
    /// The environment or header entries of `pairs`, with the values rendered
    /// from index `start` on.
    fn rekey(pairs: &Vec<(String, String)>, rendered: &Vec<String>, start: usize) -> (r: Vec<
        (String, String),
    >)
        requires
            start + pairs@.len() <= rendered@.len(),
        ensures
            pairs_view(r@) == rekeyed(pairs@, strings_view(rendered@).skip(start as int)),
    {
        let mut out: Vec<(String, String)> = Vec::new();
        let total = rendered.len();
        let mut i: usize = 0;
        while i < pairs.len()
            invariant
                total == rendered@.len(),
                i <= pairs@.len(),
                start + pairs@.len() <= rendered@.len(),
                out@.len() == i,
                forall|j: int|
                    0 <= j < i ==> (#[trigger] out@[j]).0@ == pairs@[j].0@ && out@[j].1@
                        == rendered@[start + j]@,
            decreases pairs@.len() - i,
        {
            out.push((pairs[i].0.clone(), rendered[start + i].clone()));
            i += 1;
        }
        assert(pairs_view(out@) =~= rekeyed(pairs@, strings_view(rendered@).skip(start as int)));
        out
    }

    /// The plan, once every template is rendered.
    fn plan(&self) -> (r: LaunchPlan)
        requires
            self.wf(),
            self.rendered@.len() == self.templates().len(),
        ensures
            plan_matches(r, self.config, strings_view(self.rendered@)),
    {
        let ghost done = strings_view(self.rendered@);
        match &self.config {
            McpConfig::Stdio { command, args, envs, .. } => {
                let mut out: Vec<String> = Vec::new();
                let mut i: usize = 0;
                while i < args.len()
                    invariant
                        i <= args@.len(),
                        args@.len() <= self.rendered@.len(),
                        out@.len() == i,
                        forall|j: int| 0 <= j < i ==> (#[trigger] out@[j])@ == self.rendered@[j]@,
                    decreases args@.len() - i,
                {
                    out.push(self.rendered[i].clone());
                    i += 1;
                }
                assert(strings_view(out@) =~= done.take(args@.len() as int));
                LaunchPlan::Process {
                    command: command.clone(),
                    args: out,
                    envs: Self::rekey(envs, &self.rendered, args.len()),
                }
            },
            McpConfig::Sse { url, headers, .. } => {
                let hs = match headers {
                    Some(h) => Some(Self::rekey(h, &self.rendered, 1)),
                    None => None,
                };
                LaunchPlan::Network { url: self.rendered[0].clone(), headers: hs }
            },
        }
    }

    /// Takes in the outcome of rendering the next template: its text, the
    /// variable it lacks, or a failure without a name. Returns what the
    /// attempt needs next, or `None` when rendering can go on.
    pub fn accept_render(&mut self, outcome: Result<String, Option<String>>) -> (r: Option<Progress>)
        requires
            old(self).wf(),
            old(self).pending is None,
            old(self).failure is None,
            old(self).rendered@.len() < old(self).templates().len(),
        ensures
            final(self).wf(),
            final(self).config == old(self).config,
            final(self).context == old(self).context,
            match outcome {
                Ok(text) => {
                    &&& final(self).rendered@ == old(self).rendered@.push(text)
                    &&& final(self).pending is None
                    &&& final(self).failure is None
                    &&& r is None
                },
                Err(Some(name)) => {
                    &&& final(self).rendered == old(self).rendered
                    &&& if has_var(pairs_view(old(self).context.vars@), name@) {
                        &&& final(self).pending is None
                        &&& final(self).failure == Some(ResolveError::RepeatedVariable(name))
                        &&& r == Some(Progress::Failed(ResolveError::RepeatedVariable(name)))
                    } else {
                        &&& final(self).pending == Some(name)
                        &&& final(self).failure is None
                        &&& r == Some(Progress::InputRequired(name))
                    }
                },
                Err(None) => {
                    &&& final(self).rendered == old(self).rendered
                    &&& final(self).pending is None
                    &&& final(self).failure == Some(ResolveError::RenderFailed)
                    &&& r == Some(Progress::Failed(ResolveError::RenderFailed))
                },
            },
    {
        match outcome {
            Ok(text) => {
                self.rendered.push(text);
                None
            },
            Err(Some(name)) => {
                if self.context.has_var(&name) {
                    self.failure = Some(ResolveError::RepeatedVariable(name.clone()));
                    Some(Progress::Failed(ResolveError::RepeatedVariable(name)))
                } else {
                    self.pending = Some(name.clone());
                    Some(Progress::InputRequired(name))
                }
            },
            Err(None) => {
                self.failure = Some(ResolveError::RenderFailed);
                Some(Progress::Failed(ResolveError::RenderFailed))
            },
        }
    }

    /// Renders the remaining templates until one lacks a variable, rendering
    /// fails, or all are rendered. A failed attempt stays failed, and one that
    /// awaits input keeps asking for it.
    pub fn advance(&mut self) -> (r: Progress)
        requires
            old(self).wf(),
        ensures
            final(self).wf(),
            final(self).config == old(self).config,
            final(self).context == old(self).context,
            old(self).failure matches Some(e) ==> r == Progress::Failed(e) && *final(self) == *old(
                self,
            ),
            old(self).failure is None && old(self).pending is Some ==> r == Progress::InputRequired(
                old(self).pending->0,
            ) && *final(self) == *old(self),
            old(self).failure is None && old(self).pending is None ==> {
                let run = render_run(
                    old(self).templates(),
                    old(self).context.service@,
                    pairs_view(old(self).context.vars@),
                    strings_view(old(self).rendered@),
                );
                &&& strings_view(final(self).rendered@) == run.0
                &&& match run.1 {
                    Ok(()) => {
                        &&& r matches Progress::Ready(plan) && plan_matches(
                            plan,
                            old(self).config,
                            run.0,
                        )
                        &&& final(self).pending is None
                        &&& final(self).failure is None
                    },
                    Err(Some(name)) => if has_var(pairs_view(old(self).context.vars@), name) {
                        &&& r matches Progress::Failed(ResolveError::RepeatedVariable(k)) && k@
                            == name
                        &&& final(self).failure == Some(ResolveError::RepeatedVariable(name_of(r)))
                        &&& final(self).pending is None
                    } else {
                        &&& r matches Progress::InputRequired(k) && k@ == name
                        &&& final(self).pending == Some(name_of(r))
                        &&& final(self).failure is None
                    },
                    Err(None) => {
                        &&& r == Progress::Failed(ResolveError::RenderFailed)
                        &&& final(self).failure == Some(ResolveError::RenderFailed)
                        &&& final(self).pending is None
                    },
                }
            },
    {
        match &self.failure {
            Some(e) => {
                return Progress::Failed(e.duplicate());
            },
            None => {},
        }
        match &self.pending {
            Some(name) => {
                return Progress::InputRequired(name.clone());
            },
            None => {},
        }
        let n = self.template_count();
        let ghost tpls = self.templates();
        let ghost svc = self.context.service@;
        let ghost vars = pairs_view(self.context.vars@);
        let ghost start = strings_view(self.rendered@);
        let ghost config0 = self.config;
        let ghost context0 = self.context;
        while self.rendered.len() < n
            invariant
                self.wf(),
                self.config == config0,
                self.context == context0,
                config0 == old(self).config,
                context0 == old(self).context,
                start == strings_view(old(self).rendered@),
                old(self).pending is None,
                old(self).failure is None,
                tpls == templates_of(config0),
                svc == context0.service@,
                vars == pairs_view(context0.vars@),
                n == tpls.len(),
                self.pending is None,
                self.failure is None,
                render_run(tpls, svc, vars, strings_view(self.rendered@)) == render_run(
                    tpls,
                    svc,
                    vars,
                    start,
                ),
            decreases n - self.rendered@.len(),
        {
            let i = self.rendered.len();
            let ghost before = self.rendered@;
            let template = self.template_at(i).as_str();
            let outcome = if opens_decorator_exec(template) {
                Err(None)
            } else {
                render_strict(template, &self.context)
            };
            assert(strings_view(before).len() == i);
            match self.accept_render(outcome) {
                Some(p) => {
                    return p;
                },
                None => {
                    assert(strings_view(self.rendered@) =~= strings_view(before).push(
                        self.rendered@[i as int]@,
                    ));
                },
            }
        }
        Progress::Ready(self.plan())
    }

    /// Supplies the value of the awaited variable.
    pub fn provide_input(&mut self, value: String)
        requires
            old(self).wf(),
            old(self).pending is Some,
        ensures
            final(self).wf(),
            final(self).context.vars@ == old(self).context.vars@.push(
                (old(self).pending->0, value),
            ),
            final(self).context.service == old(self).context.service,
            final(self).pending is None,
            final(self).config == old(self).config,
            final(self).rendered == old(self).rendered,
            final(self).failure == old(self).failure,
    {
        let name = self.pending.take().unwrap();
        let ghost old_vars = pairs_view(self.context.vars@);
        self.context.vars.push((name, value));
        let ghost vars = pairs_view(self.context.vars@);
        assert forall|i: int, j: int| 0 <= i < j < vars.len() implies vars[i].0 != vars[j].0 by {
            if j == vars.len() - 1 {
                assert(vars[i] == old_vars[i]);
                assert(!has_var(old_vars, name@));
            } else {
                assert(vars[i] == old_vars[i]);
                assert(vars[j] == old_vars[j]);
            }
        }
    }

    /// Records that the awaited value will not come: the attempt fails.
    pub fn input_unavailable(&mut self) -> (r: Progress)
        requires
            old(self).wf(),
            old(self).pending is Some,
        ensures
            final(self).wf(),
            final(self).failure == Some(ResolveError::InputUnavailable(old(self).pending->0)),
            r == Progress::Failed(ResolveError::InputUnavailable(old(self).pending->0)),
            final(self).pending is None,
            final(self).config == old(self).config,
            final(self).context == old(self).context,
            final(self).rendered == old(self).rendered,
    {
        let name = self.pending.take().unwrap();
        self.failure = Some(ResolveError::InputUnavailable(name.clone()));
        Progress::Failed(ResolveError::InputUnavailable(name))
    }
}

/// The variable name that a progress report carries, if any.
pub open spec fn name_of(p: Progress) -> String {
    match p {
        Progress::InputRequired(k) => k,
        Progress::Failed(ResolveError::InputUnavailable(k)) => k,
        Progress::Failed(ResolveError::RepeatedVariable(k)) => k,
        _ => arbitrary(),
    }
}

/// Within one attempt no variable is asked for twice: the variables supplied
/// so far carry distinct names, and the one awaited is none of them. So a
/// template with two distinct missing variables leads to at most one request
/// for each, and a name reported missing again after its value came fails
/// the attempt instead of asking anew.
pub proof fn lemma_variables_asked_once(a: LaunchAttempt)
    requires
        a.wf(),
    ensures
        forall|i: int, j: int|
            0 <= i < j < a.context.vars@.len() ==> a.context.vars@[i].0@ != a.context.vars@[j].0@,
        a.pending matches Some(p) ==> forall|i: int|
            0 <= i < a.context.vars@.len() ==> a.context.vars@[i].0@ != p@,
{
    let vars = pairs_view(a.context.vars@);
    assert forall|i: int, j: int| 0 <= i < j < a.context.vars@.len() implies a.context.vars@[i].0@
        != a.context.vars@[j].0@ by {
        assert(vars[i].0 != vars[j].0);
    }
    if a.pending is Some {
        let p = a.pending->0;
        assert forall|i: int| 0 <= i < a.context.vars@.len() implies a.context.vars@[i].0@ != p@ by {
            assert(vars[i].0 == a.context.vars@[i].0@);
            assert(!has_var(vars, p@));
        }
    }
}

} // verus!
