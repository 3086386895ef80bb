//! The tool calls of the current response as they are requested and
//! finished, and their one-line labels.

use vstd::prelude::*;
use vstd::string::StringExecFns;
use crate::chars::{chars_eq_str, str_chars};
use crate::formatting::{decimal, push_decimal};
use crate::text::{llm_hint, strip_llm_hints, trim_end_matches_spec};

verus! {

/// A tool-activity event of the engine.
#[derive(Debug, Clone, PartialEq, Eq)]
pub enum ToolActivity {
    /// A new response started: earlier calls are forgotten.
    ResponseStarted,
    /// A tool call was requested.
    Requested { call_id: String, name: String, body: String },
    /// A tool call finished.
    Finished { call_id: String, is_error: bool, body: String },
}

/// One tracked call: `result` is `None` while running, else whether it
/// failed.
#[derive(Debug, Clone, PartialEq, Eq)]
pub struct ToolCall {
    pub id: String,
    pub name: String,
    pub body: String,
    pub result: Option<bool>,
}

/// A call as plain values.
pub struct CallView {
    pub id: Seq<char>,
    pub name: Seq<char>,
    pub body: Seq<char>,
    pub result: Option<bool>,
}

pub open spec fn call_view(c: ToolCall) -> CallView {
    CallView { id: c.id@, name: c.name@, body: c.body@, result: c.result }
}

pub open spec fn calls_view(calls: Seq<ToolCall>) -> Seq<CallView> {
    calls.map_values(|c: ToolCall| call_view(c))
}

/// The position of the call with `id`, if tracked.
pub open spec fn find_call(calls: Seq<CallView>, id: Seq<char>) -> Option<int> {
    if exists|i: int| 0 <= i < calls.len() && (#[trigger] calls[i]).id == id {
        Some(choose|i: int| 0 <= i < calls.len() && (#[trigger] calls[i]).id == id)
    } else {
        None
    }
}

/// Every tracked call has its own id.
pub open spec fn ids_distinct(calls: Seq<CallView>) -> bool {
    forall|i: int, j: int| 0 <= i < j < calls.len() ==> (#[trigger] calls[i]).id != (#[trigger] calls[j]).id
}

/// Applying an event: a new response forgets the calls; a request adds a
/// running call unless its id is tracked; a finish records the outcome and
/// the (hint-stripped) body of a tracked running call, once.
pub open spec fn update_spec(calls: Seq<CallView>, event: ToolActivity) -> Seq<CallView> {
    match event {
        ToolActivity::ResponseStarted => Seq::empty(),
        ToolActivity::Requested { call_id, name, body } => match find_call(calls, call_id@) {
            Some(_) => calls,
            None => calls.push(CallView { id: call_id@, name: name@, body: body@, result: None }),
        },
        ToolActivity::Finished { call_id, is_error, body } => match find_call(calls, call_id@) {
            Some(i) => if calls[i].result is None {
                calls.update(
                    i,
                    CallView {
                        result: Some(is_error),
                        body: trim_end_matches_spec(body@, llm_hint()),
                        ..calls[i]
                    },
                )
            } else {
                calls
            },
            None => calls,
        },
    }
}

/// The tool calls of the current response.
#[derive(Debug, Clone)]
pub struct ToolActivities {
    pub calls: Vec<ToolCall>,
}

impl ToolActivities {
    pub open spec fn view_calls(&self) -> Seq<CallView> {
        calls_view(self.calls@)
    }

    /// No calls.
    pub fn new() -> (a: Self)
        ensures
            a.view_calls().len() == 0,
    {
        ToolActivities { calls: Vec::new() }
    }

    fn position(&self, id: &String) -> (p: Option<usize>)
        requires
            ids_distinct(self.view_calls()),
        ensures
            match p {
                Some(i) => find_call(self.view_calls(), id@) == Some(i as int) && i < self.calls@.len(),
                None => find_call(self.view_calls(), id@) is None,
            },
    {
        let mut i: usize = 0;
        while i < self.calls.len()
            invariant
                i <= self.calls@.len(),
                ids_distinct(self.view_calls()),
                forall|t: int| 0 <= t < i ==> (#[trigger] self.view_calls()[t]).id != id@,
            decreases self.calls@.len() - i,
        {
            proof {
                assert(self.view_calls()[i as int] == call_view(self.calls@[i as int]));
            }
            if self.calls[i].id == *id {
                proof {
                    let v = self.view_calls();
                    assert(v[i as int] == call_view(self.calls@[i as int]));
                    assert(v[i as int].id == id@);
                    assert(exists|c: int| 0 <= c < v.len() && (#[trigger] v[c]).id == id@);
                    let c = choose|c: int| 0 <= c < v.len() && (#[trigger] v[c]).id == id@;
                    if c < i {
                        assert(v[c].id != v[i as int].id);
                    } else if c > i {
                        assert(v[i as int].id != v[c].id);
                    }
                    assert(c == i);
                }
                return Some(i);
            }
            i = i + 1;
        }
        None
    }

    /// Applies an event (see `update_spec`).
    pub fn update(&mut self, event: ToolActivity)
        requires
            ids_distinct(old(self).view_calls()),
        ensures
            ids_distinct(final(self).view_calls()),
            final(self).view_calls() == update_spec(old(self).view_calls(), event),
    {
        match event {
            ToolActivity::ResponseStarted => {
                self.clear();
                proof {
                    assert(self.view_calls() =~= Seq::<CallView>::empty());
                }
            },
            ToolActivity::Requested { call_id, name, body } => {
                let p = self.position(&call_id);
                if p.is_none() {
                    let ghost old_calls = self.view_calls();
                    self.calls.push(ToolCall { id: call_id, name, body, result: None });
                    proof {
                        assert(self.view_calls() =~= old_calls.push(
                            CallView { id: call_id@, name: name@, body: body@, result: None },
                        ));
                    }
                }
            },
            ToolActivity::Finished { call_id, is_error, body } => {
                let p = self.position(&call_id);
                if let Some(i) = p {
                    if self.calls[i].result.is_none() {
                        let stripped = strip_llm_hints(body.as_str());
                        let ghost old_calls = self.view_calls();
                        let call = ToolCall {
                            id: self.calls[i].id.clone(),
                            name: self.calls[i].name.clone(),
                            body: stripped,
                            result: Some(is_error),
                        };
                        self.calls.set(i, call);
                        proof {
                            assert(self.view_calls() =~= old_calls.update(
                                i as int,
                                CallView {
                                    result: Some(is_error),
                                    body: trim_end_matches_spec(body@, llm_hint()),
                                    ..old_calls[i as int]
                                },
                            ));
                        }
                    }
                }
            },
        }
    }

    /// Forgets every call.
    pub fn clear(&mut self)
        ensures
            final(self).view_calls().len() == 0,
    {
        self.calls = Vec::new();
    }

    /// Whether any call is tracked.
    pub fn has_activity(&self) -> (b: bool)
        ensures
            b == (self.view_calls().len() > 0),
    {
        self.calls.len() > 0
    }

    /// The label of the call at `index`: its name, its position counted from
    /// one and its state, e.g. `"bash #2 · failed"`.
    pub fn label(&self, index: usize) -> (s: String)
        requires
            index < self.calls@.len(),
        ensures
            s@ == label_spec(self.view_calls()[index as int], index as nat),
    {
        let call = &self.calls[index];
        let mut s = call.name.clone();
        s.append(" #");
        let n = self.calls.len();
        assert(index < n);
        let position = index + 1;
        push_decimal(&mut s, position as u64);
        s.append(" · ");
        let state = match call.result {
            None => "requested",
            Some(false) => "succeeded",
            Some(true) => "failed",
        };
        s.append(state);
        s
    }
}

/// The word for a call's state.
pub open spec fn state_word(result: Option<bool>) -> Seq<char> {
    match result {
        None => "requested"@,
        Some(false) => "succeeded"@,
        Some(true) => "failed"@,
    }
}

/// The label of a call at a position.
pub open spec fn label_spec(c: CallView, index: nat) -> Seq<char> {
    c.name + " #"@ + decimal(index + 1) + " · "@ + state_word(c.result)
}

/// A call's outcome is recorded once: a second finish of the same call
/// changes nothing, and a repeated request never duplicates a call.
pub proof fn outcomes_are_recorded_once(calls: Seq<CallView>, e: ToolActivity)
    requires
        ids_distinct(calls),
    ensures
        (e is Finished || e is Requested) ==> update_spec(update_spec(calls, e), e) == update_spec(calls, e),
{
    match e {
        ToolActivity::Requested { call_id, name, body } => {
            let u = update_spec(calls, e);
            if find_call(calls, call_id@) is None {
                assert(u[u.len() - 1].id == call_id@);
                assert(find_call(u, call_id@) is Some);
            }
        },
        ToolActivity::Finished { call_id, is_error, body } => {
            let u = update_spec(calls, e);
            match find_call(calls, call_id@) {
                Some(i) => {
                    if calls[i].result is None {
                        assert(u[i].id == call_id@);
                        let j = find_call(u, call_id@);
                        assert(j is Some);
                        let jj = j->0;
                        if jj != i {
                            assert(calls[jj].id == u[jj].id);
                        }
                    }
                },
                None => {},
            }
        },
        _ => {},
    }
}

/// The argument fields that summarize a call of the named tool.
pub open spec fn summary_fields_spec(name: Seq<char>) -> Seq<Seq<char>> {
    if name == "read"@ || name == "write"@ || name == "edit"@ || name == "delete"@ || name == "ls"@
        || name == "stat"@ {
        seq!["path"@]
    } else if name == "bash"@ {
        seq!["command"@]
    } else if name == "grep"@ || name == "glob"@ {
        seq!["pattern"@]
    } else if name == "fetch_url"@ {
        seq!["url"@, "mode"@]
    } else if name == "http_request"@ {
        seq!["method"@, "url"@]
    } else if name == "save_url"@ {
        seq!["url"@, "destination"@]
    } else if name == "web_search"@ {
        seq!["query"@]
    } else if name == "git_add"@ || name == "git_commit"@ || name == "git_push"@ || name == "git_pull"@
        || name == "git_checkout"@ {
        seq!["path"@]
    } else {
        Seq::empty()
    }
}

/// The argument fields that summarize a call of `tool_name` (see
/// `summary_fields_spec`).
pub fn summary_fields_for(tool_name: &str) -> (r: Vec<String>)
    ensures
        r@.len() == summary_fields_spec(tool_name@).len(),
        forall|i: int| 0 <= i < r@.len() ==> (#[trigger] r@[i])@ == summary_fields_spec(tool_name@)[i],
{
    let n = str_chars(tool_name);
    let mut r: Vec<String> = Vec::new();
    if chars_eq_str(&n, "read") || chars_eq_str(&n, "write") || chars_eq_str(&n, "edit") || chars_eq_str(&n, "delete")
        || chars_eq_str(&n, "ls") || chars_eq_str(&n, "stat") {
        r.push(String::from_str("path"));
    } else if chars_eq_str(&n, "bash") {
        r.push(String::from_str("command"));
    } else if chars_eq_str(&n, "grep") || chars_eq_str(&n, "glob") {
        r.push(String::from_str("pattern"));
    } else if chars_eq_str(&n, "fetch_url") {
        r.push(String::from_str("url"));
        r.push(String::from_str("mode"));
    } else if chars_eq_str(&n, "http_request") {
        r.push(String::from_str("method"));
        r.push(String::from_str("url"));
    } else if chars_eq_str(&n, "save_url") {
        r.push(String::from_str("url"));
        r.push(String::from_str("destination"));
    } else if chars_eq_str(&n, "web_search") {
        r.push(String::from_str("query"));
    } else if chars_eq_str(&n, "git_add") || chars_eq_str(&n, "git_commit") || chars_eq_str(&n, "git_push")
        || chars_eq_str(&n, "git_pull") || chars_eq_str(&n, "git_checkout") {
        r.push(String::from_str("path"));
    }
    r
}

} // verus!
