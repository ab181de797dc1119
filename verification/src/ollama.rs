//! The local Ollama server that answers the user's questions: its
//! addresses, the start-up probing schedule, the model-presence check and
//! the clean-up of the model's replies.

use vstd::prelude::*;
use crate::decimal::{decimal, push_decimal};
use crate::text::{
    is_trimmed, lemma_trim_is_trimmed, char_vec, extend_with_range, find, find_chars, lemma_find_first,
    lemma_find_from_occurs, occurs_at, string_of_range, trim, trim_chars, trim_range,
};

verus! {

/// How many times the server is probed before start-up is given up.
pub const SERVER_PROBE_LIMIT: u32 = 40;

/// Where the Ollama server listens and which model it serves.
pub struct OllamaManager {
    pub port: u16,
    pub model_name: String,
}

/// `http://127.0.0.1:<port>`.
pub open spec fn base_url(port: u16) -> Seq<char> {
    "http://127.0.0.1:"@ + decimal(port as nat)
}

/// `127.0.0.1:<port>`, the value of `OLLAMA_HOST` for the sidecar.
pub open spec fn host_address(port: u16) -> Seq<char> {
    "127.0.0.1:"@ + decimal(port as nat)
}

/// `p` is a prefix of `s` (`str::starts_with`).
pub open spec fn is_prefix(p: Seq<char>, s: Seq<char>) -> bool {
    p.len() <= s.len() && s.take(p.len() as int) == p
}

/// Some name in `ns`, a missing name counting as empty, starts with `model`.
pub open spec fn listed_in(model: Seq<char>, ns: Seq<Option<Seq<char>>>) -> bool {
    exists|i: int| 0 <= i < ns.len() && is_prefix(model, name_or_empty(#[trigger] ns[i]))
}

/// The model listing holds `model` (a listing without a `models` array holds nothing).
pub open spec fn model_listed(model: Seq<char>, names: Option<Seq<Option<Seq<char>>>>) -> bool {
    match names {
        None => false,
        Some(ns) => listed_in(model, ns),
    }
}

/// A listed name as a plain sequence.
pub open spec fn opt_view(n: Option<String>) -> Option<Seq<char>> {
    match n {
        Some(s) => Some(s@),
        None => None,
    }
}

/// The names of a model listing, as plain sequences.
pub open spec fn listing_view(names: Option<Vec<Option<String>>>) -> Option<Seq<Option<Seq<char>>>> {
    match names {
        None => None,
        Some(v) => Some(v@.map_values(|n: Option<String>| opt_view(n))),
    }
}

/// `<think>`.
pub open spec fn open_tag() -> Seq<char> {
    seq!['<', 't', 'h', 'i', 'n', 'k', '>']
}

/// `</think>`.
pub open spec fn close_tag() -> Seq<char> {
    seq!['<', '/', 't', 'h', 'i', 'n', 'k', '>']
}

/// A reply with its reasoning block removed and surrounding white space
/// trimmed: the text around the first `<think>` … first `</think>` pair when
/// the opening tag comes first, else the text after the first `</think>`,
/// else the whole reply.
pub open spec fn strip_think(t: Seq<char>) -> Seq<char> {
    match find(t, close_tag()) {
        Some(e) => match find(t, open_tag()) {
            Some(s) if s < e => trim(t.take(s) + t.skip(e + close_tag().len())),
            _ => trim(t.skip(e + close_tag().len())),
        },
        None => trim(t),
    }
}

impl OllamaManager {
    pub fn new(port: u16, model_name: &str) -> (m: Self)
        ensures
            m.port == port,
            m.model_name@ == model_name@,
    {
        broadcast use vstd::string::group_string_axioms;

        OllamaManager { port, model_name: model_name.to_string() }
    }

    /// The server's base address, `http://127.0.0.1:<port>`.
    pub fn get_base_url(&self) -> (url: String)
        ensures
            url@ == base_url(self.port),
    {
        let mut url = String::from_str("http://127.0.0.1:");
        push_decimal(&mut url, self.port as u64);
        url
    }

    /// The address of one endpoint: the base address followed by `path`.
    pub fn endpoint(&self, path: &str) -> (url: String)
        ensures
            url@ == base_url(self.port) + path@,
    {
        let mut url = self.get_base_url();
        url.append(path);
        url
    }

    /// `127.0.0.1:<port>`, given to the sidecar as `OLLAMA_HOST`.
    pub fn host_env(&self) -> (host: String)
        ensures
            host@ == host_address(self.port),
    {
        let mut host = String::from_str("127.0.0.1:");
        push_decimal(&mut host, self.port as u64);
        host
    }

    /// Whether the server's model listing already holds this manager's model:
    /// some name starts with the model's name (so `name:latest` counts).
    /// `names` is `None` when the listing has no `models` array; a model
    /// entry without a textual `name` is `None`.
    pub fn model_is_listed(&self, names: &Option<Vec<Option<String>>>) -> (listed: bool)
        ensures
            listed == model_listed(self.model_name@, listing_view(*names)),
    {
        match names {
            None => false,
            Some(v) => {
                let ghost ns = listing_view(*names)->0;
                assert(forall|j: int| 0 <= j < v.len() ==> ns[j] == opt_view(#[trigger] v@[j]));
                let model = char_vec(self.model_name.as_str());
                let mut i: usize = 0;
                while i < v.len()
                    invariant
                        i <= v.len(),
                        model@ == self.model_name@,
                        listing_view(*names) == Some(ns),
                        ns.len() == v.len(),
                        forall|j: int| 0 <= j < v.len() ==> ns[j] == opt_view(#[trigger] v@[j]),
                        forall|j: int|
                            0 <= j < i ==> !is_prefix(self.model_name@, name_or_empty(#[trigger] ns[j])),
                    decreases v.len() - i,
                {
                    let name: Vec<char> = match &v[i] {
                        Some(n) => char_vec(n.as_str()),
                        None => Vec::new(),
                    };
                    assert(name@ == name_or_empty(ns[i as int]));
                    if has_prefix(&name, &model) {
                        assert(is_prefix(self.model_name@, name_or_empty(ns[i as int])));
                        assert(listed_in(self.model_name@, ns));
                        return true;
                    }
                    i = i + 1;
                }
                false
            },
        }
    }
}

/// The name of a listed model, empty when it has none.
pub open spec fn name_or_empty(n: Option<Seq<char>>) -> Seq<char> {
    match n {
        Some(s) => s,
        None => Seq::empty(),
    }
}

/// Whether `p` is a prefix of `s`.
fn has_prefix(s: &Vec<char>, p: &Vec<char>) -> (r: bool)
    ensures
        r == is_prefix(p@, s@),
{
    if p.len() > s.len() {
        return false;
    }
    let mut k: usize = 0;
    while k < p.len()
        invariant
            p.len() <= s.len(),
            k <= p.len(),
            forall|j: int| 0 <= j < k ==> s@[j] == p@[j],
        decreases p.len() - k,
    {
        if s[k] != p[k] {
            assert(s@.take(p@.len() as int)[k as int] != p@[k as int]);
            return false;
        }
        k = k + 1;
    }
    assert(s@.take(p@.len() as int) =~= p@);
    true
}

/// The contents of the temporary Modelfile: `FROM <gguf_path>` and a newline.
pub fn modelfile_contents(gguf_path: &str) -> (contents: String)
    ensures
        contents@ == "FROM "@ + gguf_path@ + "\n"@,
{
    let mut contents = String::from_str("FROM ");
    contents.append(gguf_path);
    contents.append("\n");
    contents
}

/// Removes a `<think>…</think>` block that a model may emit in front of its
/// answer, and trims the rest.
pub fn strip_think_block(text: &str) -> (r: String)
    ensures
        r@ == strip_think(text@),
        find(text@, close_tag()) is None ==> r@ == trim(text@),
        match find(text@, close_tag()) {
            Some(e) => match find(text@, open_tag()) {
                Some(s) if s < e => r@ == trim(text@.take(s) + text@.skip(e + 8)),
                _ => r@ == trim(text@.skip(e + 8)),
            },
            None => r@ == trim(text@),
        },
{
    let t = char_vec(text);
    let open = vec!['<', 't', 'h', 'i', 'n', 'k', '>'];
    let close = vec!['<', '/', 't', 'h', 'i', 'n', 'k', '>'];
    assert(open@ =~= open_tag());
    assert(close@ =~= close_tag());
    let start = find_chars(&t, &open);
    let end = find_chars(&t, &close);
    proof {
        lemma_find_from_occurs(t@, open_tag(), 0);
        lemma_find_from_occurs(t@, close_tag(), 0);
    }
    match end {
        Some(e) => {
            let len = t.len();
            assert(e + close_tag().len() <= len);
            let after = e + 8;
            match start {
                Some(s) => {
                    if s < e {
                        let mut joined: Vec<char> = Vec::new();
                        extend_with_range(&mut joined, &t, 0, s);
                        extend_with_range(&mut joined, &t, after, t.len());
                        assert(joined@ =~= t@.take(s as int) + t@.skip(after as int));
                        return trim_chars(&joined);
                    }
                },
                None => {},
            }
            let (lo, hi) = trim_range(&t, after, t.len());
            assert(t@.subrange(after as int, t@.len() as int) =~= t@.skip(after as int));
            string_of_range(&t, lo, hi)
        },
        None => trim_chars(&t),
    }
}

/// The text of a chat reply: the message content (empty when the reply has
/// none) with any reasoning block stripped.
pub fn reply_text(content: Option<&str>) -> (r: String)
    ensures
        r@ == strip_think(
            match content {
                Some(c) => c@,
                None => Seq::empty(),
            },
        ),
{
    match content {
        Some(c) => strip_think_block(c),
        None => {
            let r = strip_think_block("");
            proof {
                reveal_strlit("");
            }
            r
        },
    }
}

/// What the start-up wait does next.
pub enum WaitStep {
    /// Send one more request to the server.
    Probe,
    /// The server answered with a success status.
    Ready,
    /// The server did not answer well: pause before the next step.
    Sleep,
    /// The probe budget is spent: start-up failed.
    GiveUp,
}

/// The schedule of `wait_for_server`: up to `SERVER_PROBE_LIMIT` probes,
/// each failed one followed by a pause.
pub struct ServerWait {
    probes: u32,
}

impl ServerWait {
    /// The number of probes made so far.
    pub closed spec fn probes_made(&self) -> nat {
        self.probes as nat
    }

    pub closed spec fn wf(&self) -> bool {
        self.probes <= SERVER_PROBE_LIMIT
    }

    pub fn new() -> (w: Self)
        ensures
            w.wf(),
            w.probes_made() == 0,
    {
        ServerWait { probes: 0 }
    }

    /// Probe while the budget lasts, then give up.
    pub fn next_step(&self) -> (step: WaitStep)
        requires
            self.wf(),
        ensures
            step == (if self.probes_made() < SERVER_PROBE_LIMIT {
                WaitStep::Probe
            } else {
                WaitStep::GiveUp
            }),
    {
        if self.probes < SERVER_PROBE_LIMIT {
            WaitStep::Probe
        } else {
            WaitStep::GiveUp
        }
    }

    /// Records the outcome of one probe: ready on success, else a pause.
    pub fn record_probe(&mut self, healthy: bool) -> (step: WaitStep)
        requires
            old(self).wf(),
            old(self).probes_made() < SERVER_PROBE_LIMIT,
        ensures
            final(self).wf(),
            final(self).probes_made() == old(self).probes_made() + 1,
            step == (if healthy {
                WaitStep::Ready
            } else {
                WaitStep::Sleep
            }),
    {
        self.probes = self.probes + 1;
        if healthy {
            WaitStep::Ready
        } else {
            WaitStep::Sleep
        }
    }
}

/// A cleaned reply never starts or ends with white space.
pub proof fn lemma_reply_is_trimmed(t: Seq<char>)
    ensures
        is_trimmed(strip_think(t)),
{
    match find(t, close_tag()) {
        Some(e) => match find(t, open_tag()) {
            Some(s) if s < e => lemma_trim_is_trimmed(t.take(s) + t.skip(e + close_tag().len())),
            _ => lemma_trim_is_trimmed(t.skip(e + close_tag().len())),
        },
        None => lemma_trim_is_trimmed(t),
    }
}

/// A listing that names the model, bare or with any tag after it (such as
/// `:latest`), holds the model.
pub proof fn lemma_tagged_model_is_listed(
    model: Seq<char>,
    before: Seq<Option<Seq<char>>>,
    tag: Seq<char>,
    after: Seq<Option<Seq<char>>>,
)
    ensures
        model_listed(model, Some(before.push(Some(model + tag)) + after)),
{
    let ns = before.push(Some(model + tag)) + after;
    assert((model + tag).take(model.len() as int) =~= model);
    assert(ns[before.len() as int] == Some(model + tag));
    assert(is_prefix(model, name_or_empty(ns[before.len() as int])));
}

/// The start-up wait never probes more than `SERVER_PROBE_LIMIT` times.
pub proof fn lemma_probe_budget(w: ServerWait)
    requires
        w.wf(),
    ensures
        w.probes_made() <= SERVER_PROBE_LIMIT,
{
}

/// A reply without a closing `</think>` tag is only trimmed: what lies
/// between its first and last non-blank characters, line breaks included,
/// comes back unchanged.
pub proof fn lemma_untagged_reply_trimmed(t: Seq<char>)
    requires
        find(t, close_tag()) is None,
    ensures
        strip_think(t) == trim(t),
{
}

/// `s` holds no `<`, so no tag starts in it.
pub open spec fn no_tag_start(s: Seq<char>) -> bool {
    forall|i: int| 0 <= i < s.len() ==> #[trigger] s[i] != '<'
}

/// A reply made of a text, a `<think>` block and a text after it, where
/// neither the text in front nor the reasoning holds a `<`, cleans up to
/// the text in front followed by the text after the block, trimmed.
pub proof fn lemma_think_block_removed(before: Seq<char>, inner: Seq<char>, after: Seq<char>)
    requires
        no_tag_start(before),
        no_tag_start(inner),
    ensures
        strip_think(before + open_tag() + inner + close_tag() + after) == trim(before + after),
{
    let t = before + open_tag() + inner + close_tag() + after;
    let s = before.len() as int;
    let e = s + 7 + inner.len();
    assert(t.subrange(s, s + 7) =~= open_tag());
    assert(t.subrange(e, e + 8) =~= close_tag());
    assert forall|i: int| 0 <= i < s implies !occurs_at(t, open_tag(), i) by {
        assert(t[i] == before[i]);
        if occurs_at(t, open_tag(), i) {
            assert(t.subrange(i, i + 7)[0] == t[i]);
        }
    }
    lemma_find_first(t, open_tag(), 0, s);
    assert forall|i: int| 0 <= i < e implies !occurs_at(t, close_tag(), i) by {
        if occurs_at(t, close_tag(), i) {
            assert(t.subrange(i, i + 8)[0] == t[i]);
            assert(t.subrange(i, i + 8)[1] == t[i + 1]);
            if i < s {
                assert(t[i] == before[i]);
            } else if i == s {
                assert(t[i + 1] == open_tag()[1]);
            } else if i < s + 7 {
                assert(t[i] == open_tag()[i - s]);
            } else {
                assert(t[i] == inner[i - s - 7]);
            }
        }
    }
    lemma_find_first(t, close_tag(), 0, e);
    assert(t.take(s) + t.skip(e + 8) =~= before + after);
}

} // verus!
