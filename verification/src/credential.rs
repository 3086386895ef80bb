//! The credential entry panel: an API-key field and, for `/connect`
//! providers without a default endpoint, a base-URL field, submitted in one
//! or two steps.

use vstd::prelude::*;
use vstd::string::StringExecFns;
use crate::chars::str_chars;
use crate::text::{trim, trim_spec};

verus! {

/// Which credential field receives typed text.
#[derive(Debug, Clone, Copy, PartialEq, Eq, Structural)]
pub enum CredentialField {
    ApiKey,
    BaseUrl,
}

/// What the open panel asks credentials for.
#[derive(Debug, Clone, PartialEq, Eq)]
pub struct CredentialRequest {
    pub provider: String,
    pub model_id: Option<String>,
    pub connect_mode: bool,
    pub default_base_url: Option<String>,
}

/// The credentials handed back on submit.
#[derive(Debug, Clone, PartialEq, Eq)]
pub struct CredentialResponse {
    pub provider: String,
    pub api_key: String,
    pub model_id: Option<String>,
    pub connect_mode: bool,
    pub base_url: Option<String>,
}

/// The credential panel: open while `request` is present.
#[derive(Debug, Clone)]
pub struct CredentialForm {
    pub request: Option<CredentialRequest>,
    pub field: CredentialField,
    pub credential_buffer: String,
    pub base_url_buffer: String,
}

/// A credential request as plain values.
pub struct RequestView {
    pub provider: Seq<char>,
    pub model_id: Option<Seq<char>>,
    pub connect_mode: bool,
    pub default_base_url: Option<Seq<char>>,
}

/// The panel state as plain values: the request while open, the focused
/// field and both buffers.
pub struct FormModel {
    pub request: Option<RequestView>,
    pub field: CredentialField,
    pub key: Seq<char>,
    pub url: Seq<char>,
}

pub open spec fn opt_view(o: Option<String>) -> Option<Seq<char>> {
    match o {
        Some(s) => Some(s@),
        None => None,
    }
}

impl CredentialForm {
    pub open spec fn model(&self) -> FormModel {
        FormModel {
            request: match self.request {
                Some(q) => Some(
                    RequestView {
                        provider: q.provider@,
                        model_id: opt_view(q.model_id),
                        connect_mode: q.connect_mode,
                        default_base_url: opt_view(q.default_base_url),
                    },
                ),
                None => None,
            },
            field: self.field,
            key: self.credential_buffer@,
            url: self.base_url_buffer@,
        }
    }

    /// A closed panel with empty fields.
    pub fn closed() -> (f: Self)
        ensures
            f.request is None,
            f.field == CredentialField::ApiKey,
            f.credential_buffer@.len() == 0,
            f.base_url_buffer@.len() == 0,
    {
        CredentialForm {
            request: None,
            field: CredentialField::ApiKey,
            credential_buffer: String::new(),
            base_url_buffer: String::new(),
        }
    }

    /// Opens the panel on the API-key field with empty fields.
    pub fn open_credential_input(
        provider: &str,
        model_id: Option<&str>,
        connect_mode: bool,
        default_base_url: Option<String>,
    ) -> (f: Self)
        ensures
            f.request matches Some(r) && r.provider@ == provider@ && opt_view(r.model_id) == (match model_id {
                Some(m) => Some(m@),
                None => None,
            }) && r.connect_mode == connect_mode && r.default_base_url == default_base_url,
            f.field == CredentialField::ApiKey,
            f.credential_buffer@.len() == 0,
            f.base_url_buffer@.len() == 0,
    {
        let model_id = match model_id {
            Some(m) => Some(String::from_str(m)),
            None => None,
        };
        CredentialForm {
            request: Some(
                CredentialRequest {
                    provider: String::from_str(provider),
                    model_id,
                    connect_mode,
                    default_base_url,
                },
            ),
            field: CredentialField::ApiKey,
            credential_buffer: String::new(),
            base_url_buffer: String::new(),
        }
    }

    /// Closes the panel; the fields keep their text.
    pub fn close(&mut self)
        ensures
            final(self).request is None,
            final(self).field == old(self).field,
            final(self).credential_buffer@ == old(self).credential_buffer@,
            final(self).base_url_buffer@ == old(self).base_url_buffer@,
    {
        self.request = None;
    }

    /// Appends `text` to the active field while the panel is open.
    pub fn credential_append_str(&mut self, text: &str)
        ensures
            final(self).request == old(self).request,
            final(self).field == old(self).field,
            final(self).credential_buffer@ == (if old(self).request is Some && old(self).field
                == CredentialField::ApiKey {
                old(self).credential_buffer@ + text@
            } else {
                old(self).credential_buffer@
            }),
            final(self).base_url_buffer@ == (if old(self).request is Some && old(self).field
                == CredentialField::BaseUrl {
                old(self).base_url_buffer@ + text@
            } else {
                old(self).base_url_buffer@
            }),
    {
        if self.request.is_some() {
            match self.field {
                CredentialField::ApiKey => self.credential_buffer.append(text),
                CredentialField::BaseUrl => self.base_url_buffer.append(text),
            }
        }
    }

    /// Appends `ch` to the active field while the panel is open.
    pub fn credential_append_char(&mut self, ch: char)
        ensures
            final(self).request == old(self).request,
            final(self).field == old(self).field,
            final(self).credential_buffer@ == (if old(self).request is Some && old(self).field
                == CredentialField::ApiKey {
                old(self).credential_buffer@.push(ch)
            } else {
                old(self).credential_buffer@
            }),
            final(self).base_url_buffer@ == (if old(self).request is Some && old(self).field
                == CredentialField::BaseUrl {
                old(self).base_url_buffer@.push(ch)
            } else {
                old(self).base_url_buffer@
            }),
    {
        if self.request.is_some() {
            match self.field {
                CredentialField::ApiKey => self.credential_buffer.push(ch),
                CredentialField::BaseUrl => self.base_url_buffer.push(ch),
            }
        }
    }

    /// Deletes the last character of the active field while the panel is
    /// open.
    pub fn credential_backspace(&mut self)
        ensures
            final(self).request == old(self).request,
            final(self).field == old(self).field,
            final(self).credential_buffer@ == (if old(self).request is Some && old(self).field
                == CredentialField::ApiKey {
                drop_last_char(old(self).credential_buffer@)
            } else {
                old(self).credential_buffer@
            }),
            final(self).base_url_buffer@ == (if old(self).request is Some && old(self).field
                == CredentialField::BaseUrl {
                drop_last_char(old(self).base_url_buffer@)
            } else {
                old(self).base_url_buffer@
            }),
    {
        if self.request.is_some() {
            match self.field {
                CredentialField::ApiKey => {
                    self.credential_buffer = without_last(&self.credential_buffer);
                },
                CredentialField::BaseUrl => {
                    self.base_url_buffer = without_last(&self.base_url_buffer);
                },
            }
        }
    }

    /// Clears both fields and closes the panel.
    pub fn credential_cancel(&mut self)
        ensures
            final(self).request is None,
            final(self).field == old(self).field,
            final(self).credential_buffer@.len() == 0,
            final(self).base_url_buffer@.len() == 0,
    {
        self.credential_buffer = String::new();
        self.base_url_buffer = String::new();
        self.close();
    }

    /// Submits the focused field (see `submit_spec`).
    pub fn credential_submit(&mut self) -> (r: Option<CredentialResponse>)
        ensures
            ({
                let (m, out) = submit_spec(old(self).model());
                &&& final(self).model() == m
                &&& match out {
                    None => r is None,
                    Some((key, url)) => r matches Some(resp) && old(self).request matches Some(q) && resp.provider
                        == q.provider && resp.model_id == q.model_id && resp.connect_mode
                        == q.connect_mode && resp.api_key@ == key && opt_view(resp.base_url) == url,
                }
            }),
            final(self).request is Some ==> final(self).request == old(self).request,
    {
        let (provider, model_id, connect_mode, default_base_url) = match &self.request {
            Some(q) => (q.provider.clone(), q.model_id.clone(), q.connect_mode, q.default_base_url.clone()),
            None => {
                return None;
            },
        };
        let key = trim(self.credential_buffer.as_str());
        if key.as_str().is_empty() {
            self.close();
            return None;
        }
        let on_key = match self.field {
            CredentialField::ApiKey => true,
            CredentialField::BaseUrl => false,
        };
        if connect_mode && on_key {
            if default_base_url.is_some() {
                self.close();
                return Some(
                    CredentialResponse {
                        provider,
                        api_key: key,
                        model_id,
                        connect_mode,
                        base_url: default_base_url,
                    },
                );
            }
            self.field = CredentialField::BaseUrl;
            return None;
        }
        let key = trim(self.credential_buffer.as_str());
        let typed_base_url = trim(self.base_url_buffer.as_str());
        self.credential_buffer = String::new();
        self.base_url_buffer = String::new();
        let typed_empty = typed_base_url.as_str().is_empty();
        if connect_mode && default_base_url.is_none() && typed_empty {
            self.credential_buffer = key;
            return None;
        }
        let base_url = if typed_empty {
            default_base_url
        } else {
            Some(typed_base_url)
        };
        self.close();
        Some(CredentialResponse { provider, api_key: key, model_id, connect_mode, base_url })
    }
}

/// `s` without its last character (unchanged when empty).
pub open spec fn drop_last_char(s: Seq<char>) -> Seq<char> {
    if s.len() > 0 {
        s.drop_last()
    } else {
        s
    }
}

fn without_last(s: &String) -> (r: String)
    ensures
        r@ == drop_last_char(s@),
{
    let chars = str_chars(s.as_str());
    let end = if chars.len() > 0 { chars.len() - 1 } else { 0 };
    let mut r = String::new();
    let mut k: usize = 0;
    while k < end
        invariant
            end <= chars@.len(),
            end == (if chars@.len() > 0 { chars@.len() - 1 } else { 0 }),
            k <= end,
            r@ == chars@.take(k as int),
        decreases end - k,
    {
        r.push(chars[k]);
        proof {
            assert(chars@.take(k + 1) =~= chars@.take(k as int).push(chars@[k as int]));
        }
        k = k + 1;
    }
    proof {
        if chars@.len() > 0 {
            assert(chars@.take(end as int) =~= chars@.drop_last());
        } else {
            assert(chars@.take(0) =~= chars@);
        }
    }
    r
}

/// Submitting the panel: the new panel state and, when credentials are
/// handed back, `(api_key, base_url)`.
///
/// - A closed panel does nothing.
/// - An API key that is empty after trimming closes the panel.
/// - In connect mode on the API-key field, a provider with a default
///   endpoint submits right away with that endpoint; one without moves to
///   the base-URL field, keeping the request.
/// - Otherwise both fields are taken and trimmed: in connect mode without a
///   default endpoint an empty URL keeps the panel open with its request
///   (the trimmed key stays in its field); else the panel closes and
///   submits the typed URL, or the default one when none was typed.
pub open spec fn submit_spec(m: FormModel) -> (FormModel, Option<(Seq<char>, Option<Seq<char>>)>) {
    match m.request {
        None => (m, None),
        Some(q) => {
            let connect_mode = q.connect_mode;
            let default_url = q.default_base_url;
            let key = trim_spec(m.key);
            if key.len() == 0 {
                (FormModel { request: None, ..m }, None)
            } else if connect_mode && m.field == CredentialField::ApiKey {
                if default_url is Some {
                    (FormModel { request: None, ..m }, Some((key, default_url)))
                } else {
                    (FormModel { field: CredentialField::BaseUrl, ..m }, None)
                }
            } else {
                let url = trim_spec(m.url);
                if connect_mode && default_url is None && url.len() == 0 {
                    (FormModel { key: key, url: Seq::empty(), ..m }, None)
                } else {
                    (
                        FormModel { request: None, key: Seq::empty(), url: Seq::empty(), ..m },
                        Some((key, if url.len() == 0 { default_url } else { Some(url) })),
                    )
                }
            }
        },
    }
}

/// A `/connect` provider without a default endpoint needs two submits: the
/// first (with a non-blank key) only moves to the base-URL field, and the
/// second hands back the key with the typed URL once one is typed.
pub proof fn custom_provider_submits_in_two_steps(m: FormModel, typed_url: Seq<char>)
    requires
        m.request matches Some(q) && q.connect_mode && q.default_base_url is None,
        m.field == CredentialField::ApiKey,
        trim_spec(m.key).len() > 0,
        trim_spec(typed_url).len() > 0,
    ensures
        submit_spec(m).1 is None,
        submit_spec(m).0.field == CredentialField::BaseUrl,
        submit_spec(m).0.request == m.request,
        ({
            let after = FormModel { url: typed_url, ..submit_spec(m).0 };
            submit_spec(after).1 == Some((trim_spec(m.key), Some(trim_spec(typed_url))))
                && submit_spec(after).0.request is None
        }),
{
}

} // verus!
