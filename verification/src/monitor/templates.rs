//! Narrative templates: text with `{name}` placeholders, the names they
//! hold, and the engine that keeps them by name.

use vstd::prelude::*;
use crate::assoc::{assoc_get, assoc_from, lemma_assoc_skip, lemma_assoc_update, lemma_assoc_push};

verus! {

/// The character sequences of a list of strings.
pub open spec fn strings_view(v: Seq<String>) -> Seq<Seq<char>> {
    v.map_values(|s: String| s@)
}

/// The character sequences of a list of name/value pairs.
pub open spec fn pairs_view(v: Seq<(String, String)>) -> Seq<(Seq<char>, Seq<char>)> {
    v.map_values(|p: (String, String)| (p.0@, p.1@))
}

/// The placeholder `{name}` for a variable.
pub open spec fn placeholder(name: Seq<char>) -> Seq<char> {
    seq!['{'] + name + seq!['}']
}

/// `h` from position `i` on, with each occurrence of `p` replaced by `w`,
/// occurrences taken left to right without overlap (an empty `p` replaces
/// nothing).
pub open spec fn replace_from(h: Seq<char>, p: Seq<char>, w: Seq<char>, i: int) -> Seq<char>
    decreases h.len() - i,
{
    if i < 0 || i >= h.len() {
        Seq::empty()
    } else if p.len() > 0 && i + p.len() <= h.len() && h.subrange(i, i + p.len()) == p {
        w + replace_from(h, p, w, i + p.len())
    } else {
        seq![h[i]] + replace_from(h, p, w, i + 1)
    }
}

/// `h` with every occurrence of `p` replaced by `w`.
pub open spec fn replace_all(h: Seq<char>, p: Seq<char>, w: Seq<char>) -> Seq<char> {
    replace_from(h, p, w, 0)
}

/// The variables named in `s` from position `i` on, after those in `acc`:
/// a variable is the non-empty text between a `{` and the next `}`, a
/// second `{` starting it afresh.
pub open spec fn scan_vars(s: Seq<char>, i: int, in_var: bool, start: int, acc: Seq<Seq<char>>) -> Seq<Seq<char>>
    decreases s.len() - i,
{
    if i < 0 || i >= s.len() {
        acc
    } else if s[i] == '{' {
        scan_vars(s, i + 1, true, i + 1, acc)
    } else if s[i] == '}' && in_var {
        if i > start {
            scan_vars(s, i + 1, false, start, acc.push(s.subrange(start, i)))
        } else {
            scan_vars(s, i + 1, false, start, acc)
        }
    } else {
        scan_vars(s, i + 1, in_var, start, acc)
    }
}

/// The variables a template text names, in order of appearance.
pub open spec fn template_vars(s: Seq<char>) -> Seq<Seq<char>> {
    scan_vars(s, 0, false, 0, Seq::empty())
}

/// `t` with the first `n` of `vars` filled in: each variable that has a
/// value in `values` (the first pair of its name) has its placeholder
/// replaced by that value; the others are left as they are.
pub open spec fn fill_vars(
    t: Seq<char>,
    vars: Seq<Seq<char>>,
    values: Seq<(Seq<char>, Seq<char>)>,
    n: int,
) -> Seq<char>
    decreases n,
{
    if n <= 0 {
        t
    } else {
        let r = fill_vars(t, vars, values, n - 1);
        match assoc_get(values, vars[n - 1]) {
            Some(v) => replace_all(r, placeholder(vars[n - 1]), v),
            None => r,
        }
    }
}

/// `t` with the placeholders of the first `n` pairs replaced by their
/// values, pair by pair.
pub open spec fn fill_pairs(t: Seq<char>, pairs: Seq<(Seq<char>, Seq<char>)>, n: int) -> Seq<char>
    decreases n,
{
    if n <= 0 {
        t
    } else {
        replace_all(fill_pairs(t, pairs, n - 1), placeholder(pairs[n - 1].0), pairs[n - 1].1)
    }
}

/// Whether `p` occurs in `h` at position `i`.
fn occurs_at(h: &str, p: &str, i: usize, pn: usize) -> (r: bool)
    requires
        pn == p@.len(),
        i + pn <= h@.len(),
        i + pn <= usize::MAX,
    ensures
        r == (h@.subrange(i as int, i + pn) == p@),
{
    let mut k: usize = 0;
    while k < pn
        invariant
            pn == p@.len(),
            i + pn <= h@.len(),
            i + pn <= usize::MAX,
            k <= pn,
            forall|j: int| 0 <= j < k ==> h@[i + j] == p@[j],
        decreases pn - k,
    {
        if h.get_char(i + k) != p.get_char(k) {
            assert(h@.subrange(i as int, i + pn)[k as int] != p@[k as int]);
            return false;
        }
        k = k + 1;
    }
    assert(h@.subrange(i as int, i + pn) =~= p@);
    true
}

/// `h` with every occurrence of `p` replaced by `w`.
fn replace_text(h: &str, p: &str, w: &str) -> (r: String)
    ensures
        r@ == replace_all(h@, p@, w@),
{
    let hn = h.unicode_len();
    let pn = p.unicode_len();
    let mut out = String::new();
    let mut i: usize = 0;
    while i < hn
        invariant
            hn == h@.len(),
            pn == p@.len(),
            i <= hn,
            out@ + replace_from(h@, p@, w@, i as int) == replace_from(h@, p@, w@, 0),
        decreases hn - i,
    {
        let ghost before = out@;
        if pn > 0 && pn <= hn - i && occurs_at(h, p, i, pn) {
            out.append(w);
            proof {
                assert(before + replace_from(h@, p@, w@, i as int) =~= out@ + replace_from(h@, p@, w@, i + pn));
            }
            i = i + pn;
        } else {
            let c = h.substring_char(i, i + 1);
            out.append(c);
            proof {
                assert(c@ =~= seq![h@[i as int]]);
                assert(before + replace_from(h@, p@, w@, i as int) =~= out@ + replace_from(h@, p@, w@, i + 1));
            }
            i = i + 1;
        }
    }
    assert(out@ + replace_from(h@, p@, w@, hn as int) =~= out@);
    out
}

/// The placeholder text `{name}`.
fn placeholder_text(name: &String) -> (r: String)
    ensures
        r@ == placeholder(name@),
{
    let mut r = String::from_str("{");
    r.append(name.as_str());
    r.append("}");
    proof {
        reveal_strlit("{");
        reveal_strlit("}");
        assert(r@ =~= placeholder(name@));
    }
    r
}

/// The position of the first pair named `key`, if any.
fn find_pair(values: &Vec<(String, String)>, key: &String) -> (r: Option<usize>)
    ensures
        match r {
            Some(j) => j < values@.len() && assoc_get(pairs_view(values@), key@) == Some(values@[j as int].1@),
            None => assoc_get(pairs_view(values@), key@) is None,
        },
{
    let ghost pv = pairs_view(values@);
    let n = values.len();
    let mut i: usize = 0;
    while i < n
        invariant
            n == values@.len(),
            pv == pairs_view(values@),
            i <= n,
            forall|m: int| 0 <= m < i ==> pv[m].0 != key@,
        decreases n - i,
    {
        proof {
            assert(pv[i as int] == (values@[i as int].0@, values@[i as int].1@));
        }
        if values[i].0 == *key {
            proof {
                lemma_assoc_skip(pv, key@, i as int);
            }
            return Some(i);
        }
        i = i + 1;
    }
    proof {
        lemma_assoc_skip(pv, key@, n as int);
    }
    None
}

/// What a template is: its text and the variables it names.
pub struct TemplateView {
    pub template: Seq<char>,
    pub variables: Seq<Seq<char>>,
}

/// Narrative template definition.
#[derive(Debug, Clone)]
pub struct NarrativeTemplate {
    pub template: String,
    pub variables: Vec<String>,
}

impl View for NarrativeTemplate {
    type V = TemplateView;

    open spec fn view(&self) -> TemplateView {
        TemplateView { template: self.template@, variables: strings_view(self.variables@) }
    }
}

impl NarrativeTemplate {
    /// A template over `template`, naming the variables found in it.
    pub fn new(template: String) -> (r: Self)
        ensures
            r.template@ == template@,
            strings_view(r.variables@) == template_vars(template@),
    {
        let ghost s = template@;
        let n = template.as_str().unicode_len();
        let mut variables: Vec<String> = Vec::new();
        let mut in_var = false;
        let mut start: usize = 0;
        let mut i: usize = 0;
        assert(strings_view(variables@) =~= Seq::<Seq<char>>::empty());
        while i < n
            invariant
                n == s.len(),
                template@ == s,
                i <= n,
                start <= i,
                template_vars(s) == scan_vars(s, i as int, in_var, start as int, strings_view(variables@)),
            decreases n - i,
        {
            let c = template.as_str().get_char(i);
            if c == '{' {
                in_var = true;
                start = i + 1;
            } else if c == '}' && in_var {
                if i > start {
                    let piece = template.as_str().substring_char(start, i);
                    let ghost before = strings_view(variables@);
                    variables.push(piece.to_owned());
                    proof {
                        assert(strings_view(variables@) =~= before.push(s.subrange(start as int, i as int)));
                    }
                }
                in_var = false;
            }
            i = i + 1;
        }
        NarrativeTemplate { template, variables }
    }

    /// The text with each of its variables that has a value in `values`
    /// filled in (the first pair of that name counts).
    pub fn apply(&self, values: &Vec<(String, String)>) -> (r: String)
        ensures
            r@ == fill_vars(self.template@, strings_view(self.variables@), pairs_view(values@), self.variables@.len() as int),
    {
        let ghost vars = strings_view(self.variables@);
        let ghost vals = pairs_view(values@);
        let mut result = self.template.clone();
        let n = self.variables.len();
        let mut k: usize = 0;
        while k < n
            invariant
                n == self.variables@.len(),
                vars == strings_view(self.variables@),
                vals == pairs_view(values@),
                k <= n,
                result@ == fill_vars(self.template@, vars, vals, k as int),
            decreases n - k,
        {
            let var = &self.variables[k];
            assert(vars[k as int] == var@);
            match find_pair(values, var) {
                Some(j) => {
                    let p = placeholder_text(var);
                    result = replace_text(result.as_str(), p.as_str(), values[j].1.as_str());
                },
                None => {},
            }
            k = k + 1;
        }
        result
    }
}

/// Template engine for narrative generation.
pub struct TemplateEngine {
    /// Templates by name; a name occurs at most once as the engine adds
    /// them, and lookups take the first entry of a name.
    templates: Vec<(String, NarrativeTemplate)>,
}

/// The named templates of a list of entries.
pub open spec fn entries_view(v: Seq<(String, NarrativeTemplate)>) -> Seq<(Seq<char>, TemplateView)> {
    v.map_values(|e: (String, NarrativeTemplate)| (e.0@, e.1@))
}

/// A template view over a text and its variable names.
pub open spec fn tv(template: Seq<char>, variables: Seq<Seq<char>>) -> TemplateView {
    TemplateView { template, variables }
}

impl TemplateEngine {
    /// The named templates, in the order they were added.
    pub closed spec fn entries(&self) -> Seq<(Seq<char>, TemplateView)> {
        entries_view(self.templates@)
    }

    /// The template of a name.
    pub open spec fn template_for(&self, name: Seq<char>) -> Option<TemplateView> {
        assoc_get(self.entries(), name)
    }

    /// An engine with the built-in task, agent, system and pattern templates.
    pub fn new() -> (r: Self)
        ensures
            r.entries() == seq![
                ("task.started"@, tv("Task '{name}' has started. Goal: {description}"@, seq!["name"@, "description"@])),
                ("task.progress"@, tv("Task '{name}' is {progress}% complete. {agents} agents are working on it."@,
                    seq!["name"@, "progress"@, "agents"@])),
                ("task.completed"@, tv("Task '{name}' completed successfully in {duration}. {subtasks} sub-tasks were executed."@,
                    seq!["name"@, "duration"@, "subtasks"@])),
                ("agent.active"@, tv("Agent '{name}' is now {activity}. Trust level: {trust}%"@,
                    seq!["name"@, "activity"@, "trust"@])),
                ("agent.tool_use"@, tv("Agent '{name}' is using tool '{tool}' to {purpose}"@,
                    seq!["name"@, "tool"@, "purpose"@])),
                ("agent.anomaly"@, tv("⚠️ Agent '{name}' exhibited unusual behavior: {description}. Severity: {severity}"@,
                    seq!["name"@, "description"@, "severity"@])),
                ("system.healthy"@, tv("System is operating normally. {services} services online, {agents} agents active."@,
                    seq!["services"@, "agents"@])),
                ("system.degraded"@, tv("System performance degraded. {issue}. {recommendation}"@,
                    seq!["issue"@, "recommendation"@])),
                ("system.alert"@, tv("🔔 {severity} Alert: {message}. Affected: {component}"@,
                    seq!["severity"@, "message"@, "component"@])),
                ("pattern.error_recovery"@, tv("Good news! The system recovered from the error. {action} was successful after retry."@,
                    seq!["action"@])),
                ("pattern.performance"@, tv("Performance issue detected: {metric} is {value}, expected {expected}. Consider {action}."@,
                    seq!["metric"@, "value"@, "expected"@, "action"@])),
            ],
    {
        let mut templates: Vec<(String, NarrativeTemplate)> = Vec::new();
        push_entry(&mut templates, "task.started", "Task '{name}' has started. Goal: {description}",
            names2("name", "description"));
        push_entry(&mut templates, "task.progress",
            "Task '{name}' is {progress}% complete. {agents} agents are working on it.",
            names3("name", "progress", "agents"));
        push_entry(&mut templates, "task.completed",
            "Task '{name}' completed successfully in {duration}. {subtasks} sub-tasks were executed.",
            names3("name", "duration", "subtasks"));
        push_entry(&mut templates, "agent.active", "Agent '{name}' is now {activity}. Trust level: {trust}%",
            names3("name", "activity", "trust"));
        push_entry(&mut templates, "agent.tool_use", "Agent '{name}' is using tool '{tool}' to {purpose}",
            names3("name", "tool", "purpose"));
        push_entry(&mut templates, "agent.anomaly",
            "⚠️ Agent '{name}' exhibited unusual behavior: {description}. Severity: {severity}",
            names3("name", "description", "severity"));
        push_entry(&mut templates, "system.healthy",
            "System is operating normally. {services} services online, {agents} agents active.",
            names2("services", "agents"));
        push_entry(&mut templates, "system.degraded", "System performance degraded. {issue}. {recommendation}",
            names2("issue", "recommendation"));
        push_entry(&mut templates, "system.alert", "🔔 {severity} Alert: {message}. Affected: {component}",
            names3("severity", "message", "component"));
        push_entry(&mut templates, "pattern.error_recovery",
            "Good news! The system recovered from the error. {action} was successful after retry.",
            names1("action"));
        push_entry(&mut templates, "pattern.performance",
            "Performance issue detected: {metric} is {value}, expected {expected}. Consider {action}.",
            names4("metric", "value", "expected", "action"));
        let r = TemplateEngine { templates };
        assert(r.entries() =~= seq![
            ("task.started"@, tv("Task '{name}' has started. Goal: {description}"@, seq!["name"@, "description"@])),
            ("task.progress"@, tv("Task '{name}' is {progress}% complete. {agents} agents are working on it."@,
                seq!["name"@, "progress"@, "agents"@])),
            ("task.completed"@, tv("Task '{name}' completed successfully in {duration}. {subtasks} sub-tasks were executed."@,
                seq!["name"@, "duration"@, "subtasks"@])),
            ("agent.active"@, tv("Agent '{name}' is now {activity}. Trust level: {trust}%"@,
                seq!["name"@, "activity"@, "trust"@])),
            ("agent.tool_use"@, tv("Agent '{name}' is using tool '{tool}' to {purpose}"@,
                seq!["name"@, "tool"@, "purpose"@])),
            ("agent.anomaly"@, tv("⚠️ Agent '{name}' exhibited unusual behavior: {description}. Severity: {severity}"@,
                seq!["name"@, "description"@, "severity"@])),
            ("system.healthy"@, tv("System is operating normally. {services} services online, {agents} agents active."@,
                seq!["services"@, "agents"@])),
            ("system.degraded"@, tv("System performance degraded. {issue}. {recommendation}"@,
                seq!["issue"@, "recommendation"@])),
            ("system.alert"@, tv("🔔 {severity} Alert: {message}. Affected: {component}"@,
                seq!["severity"@, "message"@, "component"@])),
            ("pattern.error_recovery"@, tv("Good news! The system recovered from the error. {action} was successful after retry."@,
                seq!["action"@])),
            ("pattern.performance"@, tv("Performance issue detected: {metric} is {value}, expected {expected}. Consider {action}."@,
                seq!["metric"@, "value"@, "expected"@, "action"@])),
        ]);
        r
    }

    /// The text of template `template_name` with each pair's placeholder
    /// replaced by its value, pair by pair in the order given; `None` when
    /// there is no template of that name.
    pub fn generate(&self, template_name: &str, variables: Vec<(String, String)>) -> (r: Option<String>)
        ensures
            match self.template_for(template_name@) {
                Some(t) => r matches Some(s) && s@ == fill_pairs(t.template, pairs_view(variables@), variables@.len() as int),
                None => r is None,
            },
    {
        let ghost ev = self.entries();
        let n = self.templates.len();
        let mut i: usize = 0;
        while i < n
            invariant
                n == self.templates@.len(),
                ev == self.entries(),
                i <= n,
                forall|m: int| 0 <= m < i ==> ev[m].0 != template_name@,
            decreases n - i,
        {
            assert(ev[i as int] == (self.templates@[i as int].0@, self.templates@[i as int].1@));
            if self.templates[i].0.as_str().unicode_len() == template_name.unicode_len()
                && text_equal(self.templates[i].0.as_str(), template_name) {
                proof {
                    lemma_assoc_skip(ev, template_name@, i as int);
                }
                let t = &self.templates[i].1;
                let ghost pv = pairs_view(variables@);
                let mut result = t.template.clone();
                let m = variables.len();
                let mut k: usize = 0;
                while k < m
                    invariant
                        m == variables@.len(),
                        pv == pairs_view(variables@),
                        k <= m,
                        result@ == fill_pairs(t.template@, pv, k as int),
                    decreases m - k,
                {
                    assert(pv[k as int] == (variables@[k as int].0@, variables@[k as int].1@));
                    let p = placeholder_text(&variables[k].0);
                    result = replace_text(result.as_str(), p.as_str(), variables[k].1.as_str());
                    k = k + 1;
                }
                return Some(result);
            }
            i = i + 1;
        }
        proof {
            lemma_assoc_skip(ev, template_name@, n as int);
        }
        None
    }

    /// Adds a template under `name`, in place of one of that name.
    pub fn add_template(&mut self, name: String, template: NarrativeTemplate)
        ensures
            final(self).template_for(name@) == Some(template@),
            forall|q: Seq<char>| q != name@ ==> #[trigger] final(self).template_for(q) == old(self).template_for(q),
    {
        let ghost ev = self.entries();
        let ghost tview = template@;
        let n = self.templates.len();
        let mut i: usize = 0;
        while i < n
            invariant
                n == self.templates@.len(),
                ev == self.entries(),
                *self == *old(self),
                tview == template@,
                i <= n,
                forall|m: int| 0 <= m < i ==> ev[m].0 != name@,
            decreases n - i,
        {
            assert(ev[i as int] == (self.templates@[i as int].0@, self.templates@[i as int].1@));
            if self.templates[i].0 == name {
                proof {
                    lemma_assoc_update(ev, i as int, name@, tview);
                }
                let ghost nv = name@;
                self.templates.set(i, (name, template));
                assert(self.entries() =~= ev.update(i as int, (ev[i as int].0, tview)));
                return;
            }
            i = i + 1;
        }
        proof {
            lemma_assoc_push(ev, name@, tview);
        }
        let ghost nv = name@;
        self.templates.push((name, template));
        assert(self.entries() =~= ev.push((nv, tview)));
    }
}

/// Whether two texts of the same length hold the same characters.
fn text_equal(a: &str, b: &str) -> (r: bool)
    requires
        a@.len() == b@.len(),
    ensures
        r == (a@ == b@),
{
    let n = a.unicode_len();
    let r = occurs_at(a, b, 0, n);
    assert(a@.subrange(0, n as int) =~= a@);
    r
}

/// The names `a`, `b`, ... as strings.
fn names1(a: &str) -> (r: Vec<String>)
    ensures
        strings_view(r@) == seq![a@],
{
    let mut r = Vec::new();
    r.push(String::from_str(a));
    assert(strings_view(r@) =~= seq![a@]);
    r
}

fn names2(a: &str, b: &str) -> (r: Vec<String>)
    ensures
        strings_view(r@) == seq![a@, b@],
{
    let mut r = Vec::new();
    r.push(String::from_str(a));
    r.push(String::from_str(b));
    assert(strings_view(r@) =~= seq![a@, b@]);
    r
}

fn names3(a: &str, b: &str, c: &str) -> (r: Vec<String>)
    ensures
        strings_view(r@) == seq![a@, b@, c@],
{
    let mut r = Vec::new();
    r.push(String::from_str(a));
    r.push(String::from_str(b));
    r.push(String::from_str(c));
    assert(strings_view(r@) =~= seq![a@, b@, c@]);
    r
}

fn names4(a: &str, b: &str, c: &str, d: &str) -> (r: Vec<String>)
    ensures
        strings_view(r@) == seq![a@, b@, c@, d@],
{
    let mut r = Vec::new();
    r.push(String::from_str(a));
    r.push(String::from_str(b));
    r.push(String::from_str(c));
    r.push(String::from_str(d));
    assert(strings_view(r@) =~= seq![a@, b@, c@, d@]);
    r
}

/// Appends the template `template`, naming `variables`, under `name`.
fn push_entry(entries: &mut Vec<(String, NarrativeTemplate)>, name: &str, template: &str, variables: Vec<String>)
    ensures
        entries_view(final(entries)@) == entries_view(old(entries)@).push(
            (name@, tv(template@, strings_view(variables@))),
        ),
{
    let ghost before = entries_view(entries@);
    let ghost vars = strings_view(variables@);
    entries.push((String::from_str(name), NarrativeTemplate { template: String::from_str(template), variables }));
    assert(entries_view(entries@) =~= before.push((name@, tv(template@, vars))));
}

} // verus!
