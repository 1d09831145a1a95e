//! The values of `git config --null --list`: parsing its records into a map, and
//! picking the `ai.commit.*` keys.
use vstd::prelude::*;

use super::types::RawConfigValues;
use super::values::{non_empty_trimmed, nonempty_trimmed, opt_text};
use crate::message::owned;
use crate::text::{
    chars_of, equals_str, lossy_string, lower_seq, lowered, slice_range, string_of, trim,
    trim_bounds, utf8_lossy,
};

verus! {

/// Keys and values from one source of configuration (`git config`, or the
/// environment), each key once; a later value replaces an earlier one.
pub struct ConfigValueMap {
    entries: Vec<(String, String)>,
}

/// The map that a list of entries makes, later entries winning.
pub open spec fn entries_map(es: Seq<(String, String)>) -> Map<Seq<char>, Seq<char>>
    decreases es.len(),
{
    if es.len() == 0 {
        Map::empty()
    } else {
        entries_map(es.drop_last()).insert(es.last().0@, es.last().1@)
    }
}

pub open spec fn keys_distinct(es: Seq<(String, String)>) -> bool {
    forall|i: int, j: int| 0 <= i < j < es.len() ==> (#[trigger] es[i]).0@ != (#[trigger] es[j]).0@
}

proof fn lemma_entries_map_dom(es: Seq<(String, String)>, key: Seq<char>)
    requires
        keys_distinct(es),
    ensures
        entries_map(es).dom().contains(key) <==> exists|i: int| 0 <= i < es.len() && (
        #[trigger] es[i]).0@ == key,
        forall|i: int| 0 <= i < es.len() && (#[trigger] es[i]).0@ == key ==> entries_map(es)[key]
            == es[i].1@,
    decreases es.len(),
{
    if es.len() > 0 {
        let init = es.drop_last();
        assert(keys_distinct(init));
        lemma_entries_map_dom(init, key);
        if es.last().0@ != key {
            assert forall|i: int| 0 <= i < init.len() && (#[trigger] init[i]).0@ == key implies (
            es[i]).0@ == key by {}
            if exists|i: int| 0 <= i < es.len() && (#[trigger] es[i]).0@ == key {
                let i = choose|i: int| 0 <= i < es.len() && (#[trigger] es[i]).0@ == key;
                assert(init[i] == es[i]);
            }
        }
    }
}

proof fn lemma_entries_map_len(es: Seq<(String, String)>)
    requires
        keys_distinct(es),
    ensures
        entries_map(es).dom().finite(),
        entries_map(es).dom().len() == es.len(),
    decreases es.len(),
{
    if es.len() > 0 {
        let init = es.drop_last();
        assert(keys_distinct(init));
        lemma_entries_map_len(init);
        lemma_entries_map_dom(init, es.last().0@);
        if entries_map(init).dom().contains(es.last().0@) {
            let i = choose|i: int| 0 <= i < init.len() && (#[trigger] init[i]).0@ == es.last().0@;
            assert(es[i] == init[i]);
            assert(false);
        }
        assert(entries_map(es).dom() =~= entries_map(init).dom().insert(es.last().0@));
    }
}

proof fn lemma_entries_map_update(es: Seq<(String, String)>, j: int, e: (String, String))
    requires
        keys_distinct(es),
        0 <= j < es.len(),
        es[j].0@ == e.0@,
    ensures
        entries_map(es.update(j, e)) == entries_map(es).insert(e.0@, e.1@),
        keys_distinct(es.update(j, e)),
    decreases es.len(),
{
    let up = es.update(j, e);
    let init = es.drop_last();
    assert(keys_distinct(init));
    assert forall|a: int, b: int| 0 <= a < b < up.len() implies (#[trigger] up[a]).0@ != (
    #[trigger] up[b]).0@ by {
        assert(up[a].0@ == es[a].0@);
        assert(up[b].0@ == es[b].0@);
    }
    if j == es.len() - 1 {
        assert(up.drop_last() =~= init);
        assert(entries_map(up) =~= entries_map(es).insert(e.0@, e.1@));
    } else {
        lemma_entries_map_update(init, j, e);
        assert(up.drop_last() =~= init.update(j, e));
        assert(es.last().0@ != e.0@) by {
            assert(es[j].0@ != es[es.len() - 1].0@);
        }
        assert(entries_map(up) =~= entries_map(es).insert(e.0@, e.1@));
    }
}

impl View for ConfigValueMap {
    type V = Map<Seq<char>, Seq<char>>;

    closed spec fn view(&self) -> Map<Seq<char>, Seq<char>> {
        entries_map(self.entries@)
    }
}

/// Whether two texts are the same.
fn same_text(a: &str, b: &str) -> (r: bool)
    ensures
        r == (a@ == b@),
{
    let ac = chars_of(a);
    equals_str(ac.as_slice(), b)
}

impl ConfigValueMap {
    /// Each key held once.
    pub closed spec fn wf(&self) -> bool {
        keys_distinct(self.entries@)
    }

    /// An empty map.
    pub fn new() -> (m: ConfigValueMap)
        ensures
            m.wf(),
            m@ == Map::<Seq<char>, Seq<char>>::empty(),
    {
        ConfigValueMap { entries: Vec::new() }
    }

    /// Sets `key` to `value`, replacing an earlier value.
    pub fn insert(&mut self, key: String, value: String)
        requires
            old(self).wf(),
        ensures
            final(self).wf(),
            final(self)@ == old(self)@.insert(key@, value@),
    {
        let mut k: usize = 0;
        while k < self.entries.len()
            invariant
                k <= self.entries@.len(),
                keys_distinct(self.entries@),
                self.entries@ == old(self).entries@,
                forall|i: int| 0 <= i < k ==> (#[trigger] self.entries@[i]).0@ != key@,
            decreases self.entries@.len() - k,
        {
            if same_text(self.entries[k].0.as_str(), key.as_str()) {
                proof {
                    lemma_entries_map_update(self.entries@, k as int, (key, value));
                }
                self.entries.set(k, (key, value));
                return;
            }
            k = k + 1;
        }
        let ghost before = self.entries@;
        self.entries.push((key, value));
        assert(self.entries@.drop_last() =~= before);
        assert(keys_distinct(self.entries@)) by {
            assert forall|a: int, b: int| 0 <= a < b < self.entries@.len() implies (
            #[trigger] self.entries@[a]).0@ != (#[trigger] self.entries@[b]).0@ by {
                if b == before.len() {
                    assert(self.entries@[a] == before[a]);
                } else {
                    assert(self.entries@[a] == before[a]);
                    assert(self.entries@[b] == before[b]);
                }
            }
        }
    }

    /// The value of `key`.
    pub fn get(&self, key: &str) -> (r: Option<&String>)
        requires
            self.wf(),
        ensures
            match r {
                Some(v) => self@.dom().contains(key@) && self@[key@] == v@,
                None => !self@.dom().contains(key@),
            },
    {
        proof {
            lemma_entries_map_dom(self.entries@, key@);
        }
        let mut k: usize = 0;
        while k < self.entries.len()
            invariant
                k <= self.entries@.len(),
                keys_distinct(self.entries@),
                forall|i: int| 0 <= i < k ==> (#[trigger] self.entries@[i]).0@ != key@,
            decreases self.entries@.len() - k,
        {
            if same_text(self.entries[k].0.as_str(), key) {
                proof {
                    lemma_entries_map_dom(self.entries@, key@);
                }
                return Some(&self.entries[k].1);
            }
            k = k + 1;
        }
        None
    }

    /// The number of keys.
    pub fn len(&self) -> (n: usize)
        requires
            self.wf(),
        ensures
            n == self@.dom().len(),
    {
        proof {
            lemma_entries_map_len(self.entries@);
        }
        self.entries.len()
    }
}

/// The records of the output: the pieces between NUL bytes.
pub open spec fn nul_records(s: Seq<u8>) -> Seq<Seq<u8>>
    decreases s.len(),
{
    if s.len() == 0 {
        seq![Seq::<u8>::empty()]
    } else {
        let r = nul_records(s.drop_last());
        if s.last() == 0 {
            r.push(Seq::<u8>::empty())
        } else {
            r.update(r.len() - 1, r.last().push(s.last()))
        }
    }
}

/// The index of the first newline byte of `r` from `i` on.
pub open spec fn newline_from(r: Seq<u8>, i: int) -> Option<int>
    decreases r.len() - i,
{
    if i < 0 || i >= r.len() {
        None
    } else if r[i] == 10 {
        Some(i)
    } else {
        newline_from(r, i + 1)
    }
}

/// The key and value of one record, split at its first newline: the key read as
/// UTF-8 (lossily) and lower-cased in ASCII, the value read as UTF-8 (lossily).
/// A record without a newline has none.
pub open spec fn config_entry(r: Seq<u8>) -> Option<(Seq<char>, Seq<char>)> {
    match newline_from(r, 0) {
        Some(i) => Some((lower_seq(utf8_lossy(r.take(i))), utf8_lossy(r.skip(i + 1)))),
        None => None,
    }
}

/// The map the records make, later records winning.
pub open spec fn records_map(rs: Seq<Seq<u8>>) -> Map<Seq<char>, Seq<char>>
    decreases rs.len(),
{
    if rs.len() == 0 {
        Map::empty()
    } else {
        match config_entry(rs.last()) {
            Some((k, v)) => records_map(rs.drop_last()).insert(k, v),
            None => records_map(rs.drop_last()),
        }
    }
}

/// The values that `git config --null --list` printed.
pub open spec fn git_config_values(output: Seq<u8>) -> Map<Seq<char>, Seq<char>> {
    records_map(nul_records(output))
}

fn first_newline(s: &[u8], lo: usize, hi: usize) -> (r: Option<usize>)
    requires
        lo <= hi <= s@.len(),
    ensures
        match r {
            Some(k) => lo <= k < hi && newline_from(s@.subrange(lo as int, hi as int), 0) == Some(
                k - lo,
            ),
            None => newline_from(s@.subrange(lo as int, hi as int), 0) is None,
        },
{
    let ghost t = s@.subrange(lo as int, hi as int);
    let mut k = lo;
    while k < hi
        invariant
            lo <= k <= hi <= s@.len(),
            t == s@.subrange(lo as int, hi as int),
            newline_from(t, 0) == newline_from(t, k - lo),
        decreases hi - k,
    {
        if s[k] == 10 {
            assert(t[k - lo] == s@[k as int]);
            return Some(k);
        }
        k = k + 1;
    }
    None
}

fn bytes_range(s: &[u8], lo: usize, hi: usize) -> (v: Vec<u8>)
    requires
        lo <= hi <= s@.len(),
    ensures
        v@ == s@.subrange(lo as int, hi as int),
{
    let mut v: Vec<u8> = Vec::new();
    let mut k = lo;
    while k < hi
        invariant
            lo <= k <= hi <= s@.len(),
            v@ == s@.subrange(lo as int, k as int),
        decreases hi - k,
    {
        v.push(s[k]);
        k = k + 1;
        assert(v@ =~= s@.subrange(lo as int, k as int));
    }
    v
}

/// Adds the record `s[lo..hi]` to `values`.
fn add_record(values: &mut ConfigValueMap, s: &[u8], lo: usize, hi: usize)
    requires
        old(values).wf(),
        lo <= hi <= s@.len(),
    ensures
        final(values).wf(),
        final(values)@ == match config_entry(s@.subrange(lo as int, hi as int)) {
            Some((k, v)) => old(values)@.insert(k, v),
            None => old(values)@,
        },
{
    let ghost r = s@.subrange(lo as int, hi as int);
    if lo == hi {
        return;
    }
    match first_newline(s, lo, hi) {
        Some(sep) => {
            let key_bytes = bytes_range(s, lo, sep);
            let value_bytes = bytes_range(s, sep + 1, hi);
            assert(key_bytes@ =~= r.take(sep - lo));
            assert(value_bytes@ =~= r.skip(sep - lo + 1));
            let key = lossy_string(key_bytes.as_slice());
            let key = string_of(lowered(chars_of(key.as_str()).as_slice()));
            let value = lossy_string(value_bytes.as_slice());
            assert(newline_from(r, 0) == Some((sep - lo) as int));
            assert(config_entry(r) == Some((key@, value@)));
            values.insert(key, value);
        },
        None => {},
    }
}

/// Parses the output of `git config --null --list`: records end in NUL, a record's
/// key and value are split at its first newline, keys are lower-cased, and a later
/// value replaces an earlier one.
pub fn parse_git_config_list(output: &[u8]) -> (r: ConfigValueMap)
    ensures
        r.wf(),
        r@ == git_config_values(output@),
{
    let mut values = ConfigValueMap::new();
    let mut start: usize = 0;
    let mut i: usize = 0;
    assert(output@.subrange(0, 0) =~= Seq::<u8>::empty());
    while i < output.len()
        invariant
            start <= i <= output@.len(),
            values.wf(),
            nul_records(output@.take(i as int)).last() == output@.subrange(start as int, i as int),
            records_map(nul_records(output@.take(i as int)).drop_last()) == values@,
            nul_records(output@.take(i as int)).len() >= 1,
        decreases output@.len() - i,
    {
        let ghost prev = nul_records(output@.take(i as int));
        assert(output@.take(i + 1).drop_last() =~= output@.take(i as int));
        if output[i] == 0 {
            add_record(&mut values, output, start, i);
            let ghost now = nul_records(output@.take(i + 1));
            assert(now == prev.push(Seq::<u8>::empty()));
            assert(now.drop_last() =~= prev);
            assert(prev.drop_last().push(prev.last()) =~= prev);
            start = i + 1;
            assert(output@.subrange(start as int, start as int) =~= Seq::<u8>::empty());
        } else {
            let ghost now = nul_records(output@.take(i + 1));
            assert(output@.subrange(start as int, i + 1) =~= output@.subrange(start as int, i as int).push(
                output@[i as int],
            ));
            assert(now.drop_last() =~= prev.drop_last());
        }
        i = i + 1;
    }
    add_record(&mut values, output, start, output.len());
    proof {
        let rs = nul_records(output@.take(i as int));
        assert(output@.take(i as int) =~= output@);
        assert(rs.drop_last().push(rs.last()) =~= rs);
    }
    values
}

/// A key's value, trimmed, unless it is blank or unset.
pub open spec fn entry_value(m: Map<Seq<char>, Seq<char>>, key: Seq<char>) -> Option<Seq<char>> {
    if m.dom().contains(key) {
        nonempty_trimmed(m[key])
    } else {
        None
    }
}

pub(crate) fn get_value(values: &ConfigValueMap, key: &str) -> (r: Option<String>)
    requires
        values.wf(),
    ensures
        opt_text(r) == entry_value(values@, key@),
{
    match values.get(key) {
        Some(v) => non_empty_trimmed(owned(v.as_str())),
        None => None,
    }
}

/// A key's value trimmed, blank or not, if it is set.
pub open spec fn trimmed_entry(m: Map<Seq<char>, Seq<char>>, key: Seq<char>) -> Option<Seq<char>> {
    if m.dom().contains(key) {
        Some(trim(m[key]))
    } else {
        None
    }
}

pub(crate) fn get_trimmed(values: &ConfigValueMap, key: &str) -> (r: Option<String>)
    requires
        values.wf(),
    ensures
        opt_text(r) == trimmed_entry(values@, key@),
{
    match values.get(key) {
        Some(v) => {
            let cs = chars_of(v.as_str());
            let (a, b) = trim_bounds(cs.as_slice(), 0, cs.len());
            assert(cs@.subrange(0, cs@.len() as int) =~= cs@);
            Some(string_of(slice_range(cs.as_slice(), a, b)))
        },
        None => None,
    }
}

/// `r` holds the `ai.commit.*` values of `m` as `git config` set them: blank ones
/// are unset, except the list of directories whose diff is suppressed, which is
/// only trimmed.
pub open spec fn git_raw_values(r: RawConfigValues, m: Map<Seq<char>, Seq<char>>) -> bool {
    &&& opt_text(r.provider) == entry_value(m, "ai.commit.provider"@)
    &&& opt_text(r.api_base) == entry_value(m, "ai.commit.apibase"@)
    &&& opt_text(r.api_key) == entry_value(m, "ai.commit.apikey"@)
    &&& opt_text(r.model) == entry_value(m, "ai.commit.model"@)
    &&& opt_text(r.confirm_commit) == entry_value(m, "ai.commit.confirmcommit"@)
    &&& opt_text(r.open_editor) == entry_value(m, "ai.commit.openeditor"@)
    &&& opt_text(r.enable_fallback) == entry_value(m, "ai.commit.enablefallback"@)
    &&& opt_text(r.redact_secrets) == entry_value(m, "ai.commit.redactsecrets"@)
    &&& opt_text(r.redaction_secret) == entry_value(m, "ai.commit.redaction.secret"@)
    &&& opt_text(r.redaction_domain) == entry_value(m, "ai.commit.redaction.domain"@)
    &&& opt_text(r.redaction_url) == entry_value(m, "ai.commit.redaction.url"@)
    &&& opt_text(r.redaction_email) == entry_value(m, "ai.commit.redaction.email"@)
    &&& opt_text(r.redaction_ip) == entry_value(m, "ai.commit.redaction.ip"@)
    &&& opt_text(r.redaction_cidr) == entry_value(m, "ai.commit.redaction.cidr"@)
    &&& opt_text(r.redaction_phone) == entry_value(m, "ai.commit.redaction.phone"@)
    &&& opt_text(r.redaction_person) == entry_value(m, "ai.commit.redaction.person"@)
    &&& opt_text(r.redaction_organization) == entry_value(m, "ai.commit.redaction.organization"@)
    &&& opt_text(r.show_timing) == entry_value(m, "ai.commit.showtiming"@)
    &&& opt_text(r.use_env_proxy) == entry_value(m, "ai.commit.useenvproxy"@)
    &&& opt_text(r.timeout_sec) == entry_value(m, "ai.commit.timeoutsec"@)
    &&& opt_text(r.max_diff_tokens) == entry_value(m, "ai.commit.maxdifftokens"@)
    &&& opt_text(r.model_context_tokens) == entry_value(m, "ai.commit.modelcontexttokens"@)
    &&& opt_text(r.reasoning_effort) == entry_value(m, "ai.commit.reasoningeffort"@)
    &&& opt_text(r.suppress_diff_dirs) == trimmed_entry(m, "ai.commit.suppressdiffdirs"@)
}

/// The `ai.commit.*` values from `git config`: blank ones are unset, except the list
/// of directories whose diff is suppressed, which is only trimmed.
pub fn raw_values_from_map(values: &ConfigValueMap) -> (r: RawConfigValues)
    requires
        values.wf(),
    ensures
        git_raw_values(r, values@),
{
    let suppress = get_trimmed(values, "ai.commit.suppressdiffdirs");
    RawConfigValues {
        provider: get_value(values, "ai.commit.provider"),
        api_base: get_value(values, "ai.commit.apibase"),
        api_key: get_value(values, "ai.commit.apikey"),
        model: get_value(values, "ai.commit.model"),
        confirm_commit: get_value(values, "ai.commit.confirmcommit"),
        open_editor: get_value(values, "ai.commit.openeditor"),
        enable_fallback: get_value(values, "ai.commit.enablefallback"),
        redact_secrets: get_value(values, "ai.commit.redactsecrets"),
        redaction_secret: get_value(values, "ai.commit.redaction.secret"),
        redaction_domain: get_value(values, "ai.commit.redaction.domain"),
        redaction_url: get_value(values, "ai.commit.redaction.url"),
        redaction_email: get_value(values, "ai.commit.redaction.email"),
        redaction_ip: get_value(values, "ai.commit.redaction.ip"),
        redaction_cidr: get_value(values, "ai.commit.redaction.cidr"),
        redaction_phone: get_value(values, "ai.commit.redaction.phone"),
        redaction_person: get_value(values, "ai.commit.redaction.person"),
        redaction_organization: get_value(values, "ai.commit.redaction.organization"),
        show_timing: get_value(values, "ai.commit.showtiming"),
        use_env_proxy: get_value(values, "ai.commit.useenvproxy"),
        timeout_sec: get_value(values, "ai.commit.timeoutsec"),
        max_diff_tokens: get_value(values, "ai.commit.maxdifftokens"),
        model_context_tokens: get_value(values, "ai.commit.modelcontexttokens"),
        reasoning_effort: get_value(values, "ai.commit.reasoningeffort"),
        suppress_diff_dirs: suppress,
    }
}

} // verus!
