//! Persisted launch profiles and application settings: a store of at most ten
//! named profiles kept in most-recently-used order, with the default
//! configuration used when no stored document can be read.

use vstd::prelude::*;
use vstd::string::StringExecFns;

verus! {

broadcast use
    vstd::seq_lib::group_to_multiset_ensures,
    vstd::multiset::group_multiset_axioms;

/// A saved, named launch configuration. Timestamps are milliseconds since the
/// Unix epoch.
#[derive(Debug, Clone, PartialEq, Eq)]
pub struct ServerProfile {
    pub id: String,
    pub name: String,
    pub command: String,
    pub working_directory: String,
    pub env_vars: Vec<(String, String)>,
    pub created_at: i64,
    pub last_used_at: i64,
}

/// User-facing application settings.
#[derive(Debug, Clone, PartialEq, Eq)]
pub struct AppSettings {
    pub theme: String,
    pub auto_start: bool,
}

impl Default for AppSettings {
    /// The documented default settings: system theme, no auto-start.
    fn default() -> (r: AppSettings)
        ensures
            r.theme@ == "system"@,
            !r.auto_start,
    {
        AppSettings { theme: "system".to_owned(), auto_start: false }
    }
}

/// The persisted application configuration.
#[derive(Debug)]
pub struct AppConfig {
    pub version: String,
    pub recent_profiles: Vec<ServerProfile>,
    pub default_env_vars: Vec<(String, String)>,
    pub settings: AppSettings,
}

/// The default configuration: empty profile list, empty default environment,
/// default settings.
pub open spec fn is_default_config(c: AppConfig) -> bool {
    &&& c.version@ == "1.0.0"@
    &&& c.recent_profiles@.len() == 0
    &&& c.default_env_vars@.len() == 0
    &&& c.settings.theme@ == "system"@
    &&& !c.settings.auto_start
}

impl Default for AppConfig {
    fn default() -> (r: AppConfig)
        ensures
            is_default_config(r),
    {
        AppConfig {
            version: "1.0.0".to_owned(),
            recent_profiles: Vec::new(),
            default_env_vars: Vec::new(),
            settings: AppSettings::default(),
        }
    }
}

impl AppConfig {
    /// The fallback rule for loading: a document that was read and parsed is
    /// used as it is; a missing or unparseable one yields the default.
    pub fn load_or_default(loaded: Option<AppConfig>) -> (r: AppConfig)
        ensures
            match loaded {
                Some(c) => r == c,
                None => is_default_config(r),
            },
    {
        match loaded {
            Some(c) => c,
            None => AppConfig::default(),
        }
    }
}

/// Profiles ordered by `last_used_at`, most recent first.
pub open spec fn sorted_desc(s: Seq<ServerProfile>) -> bool {
    forall|i: int, j: int| 0 <= i <= j < s.len() ==> s[i].last_used_at >= s[j].last_used_at
}

/// Sorts profiles by `last_used_at` descending; the result holds exactly the
/// profiles it was given.
fn sort_profiles_desc(v: &mut Vec<ServerProfile>)
    ensures
        sorted_desc(final(v)@),
        final(v)@.to_multiset() == old(v)@.to_multiset(),
{
    let mut out: Vec<ServerProfile> = Vec::new();
    while v.len() > 0
        invariant
            sorted_desc(out@),
            forall|i: int, j: int|
                0 <= i < out@.len() && 0 <= j < v@.len() ==> out@[i].last_used_at
                    >= v@[j].last_used_at,
            out@.to_multiset().add(v@.to_multiset()) == old(v)@.to_multiset(),
        decreases v@.len(),
    {
        let mut m: usize = 0;
        let mut k: usize = 1;
        while k < v.len()
            invariant
                0 < v@.len(),
                m < k,
                k <= v@.len(),
                forall|t: int| 0 <= t < k ==> v@[t].last_used_at <= v@[m as int].last_used_at,
            decreases v@.len() - k,
        {
            if v[k].last_used_at > v[m].last_used_at {
                m = k;
            }
            k = k + 1;
        }
        let ghost prev_out = out@;
        let ghost prev_v = v@;
        let x = v.remove(m);
        out.push(x);
        proof {
            assert(prev_v.to_multiset().contains(x));
            assert(out@.to_multiset().add(v@.to_multiset()) =~= prev_out.to_multiset().add(
                prev_v.to_multiset(),
            ));
            assert forall|i: int, j: int|
                0 <= i < out@.len() && 0 <= j < v@.len() implies out@[i].last_used_at
                >= v@[j].last_used_at by {
                assert(v@[j] == if j < m { prev_v[j] } else { prev_v[j + 1] });
                if i < prev_out.len() {
                    assert(out@[i] == prev_out[i]);
                } else {
                    assert(out@[i] == x);
                }
            }
            assert forall|i: int, j: int|
                0 <= i <= j < out@.len() implies out@[i].last_used_at >= out@[j].last_used_at by {
                if j < prev_out.len() {
                    assert(out@[i] == prev_out[i] && out@[j] == prev_out[j]);
                }
            }
        }
    }
    proof {
        assert(v@ =~= Seq::<ServerProfile>::empty());
        vstd::multiset::lemma_multiset_empty_len(v@.to_multiset());
        assert(out@.to_multiset() =~= old(v)@.to_multiset());
    }
    *v = out;
}

/// Whether some profile in `s` is named `name`.
pub open spec fn has_name(s: Seq<ServerProfile>, name: Seq<char>) -> bool {
    exists|i: int| 0 <= i < s.len() && s[i].name@ == name
}

/// `s` with `p` written over the first profile of the same name, or appended
/// when no profile has that name.
pub open spec fn replace_or_append(s: Seq<ServerProfile>, p: ServerProfile) -> Seq<ServerProfile>
    decreases s.len(),
{
    if s.len() == 0 {
        seq![p]
    } else if s[0].name@ == p.name@ {
        seq![p] + s.drop_first()
    } else {
        seq![s[0]] + replace_or_append(s.drop_first(), p)
    }
}

proof fn lemma_replace_or_append_props(s: Seq<ServerProfile>, p: ServerProfile)
    ensures
        has_name(s, p.name@) ==> replace_or_append(s, p).len() == s.len(),
        !has_name(s, p.name@) ==> replace_or_append(s, p).len() == s.len() + 1,
        forall|i: int|
            0 <= i < replace_or_append(s, p).len() ==> (#[trigger] replace_or_append(s, p)[i] == p
                || s.contains(replace_or_append(s, p)[i])),
        replace_or_append(s, p).contains(p),
    decreases s.len(),
{
    let r = replace_or_append(s, p);
    if s.len() == 0 {
        assert(r[0] == p);
    } else if s[0].name@ == p.name@ {
        assert(r[0] == p);
        assert(s[0].name@ == p.name@ && 0 < s.len());
        assert(has_name(s, p.name@));
        assert forall|i: int| 0 <= i < r.len() implies (#[trigger] r[i] == p || s.contains(
            r[i],
        )) by {
            if i > 0 {
                assert(r[i] == s[i]);
            }
        }
    } else {
        let d = s.drop_first();
        lemma_replace_or_append_props(d, p);
        let rd = replace_or_append(d, p);
        assert(r == seq![s[0]] + rd);
        if has_name(d, p.name@) {
            let w = choose|i: int| 0 <= i < d.len() && d[i].name@ == p.name@;
            assert(s[w + 1].name@ == p.name@);
            assert(has_name(s, p.name@));
        }
        if has_name(s, p.name@) {
            let w = choose|i: int| 0 <= i < s.len() && s[i].name@ == p.name@;
            assert(w != 0);
            assert(d[w - 1].name@ == p.name@);
            assert(has_name(d, p.name@));
        }
        assert forall|i: int| 0 <= i < r.len() implies (#[trigger] r[i] == p || s.contains(
            r[i],
        )) by {
            if i == 0 {
                assert(r[0] == s[0]);
            } else {
                assert(r[i] == rd[i - 1]);
                if rd[i - 1] != p {
                    let w = choose|k: int| 0 <= k < d.len() && d[k] == rd[i - 1];
                    assert(s[w + 1] == rd[i - 1]);
                }
            }
        }
        let w = choose|k: int| 0 <= k < rd.len() && rd[k] == p;
        assert(r[w + 1] == p);
    }
}

/// No two profiles in `s` share a name.
pub open spec fn unique_names(s: Seq<ServerProfile>) -> bool {
    forall|i: int, j: int| 0 <= i < j < s.len() ==> s[i].name@ != s[j].name@
}

proof fn lemma_replace_or_append_unique(s: Seq<ServerProfile>, p: ServerProfile)
    requires
        unique_names(s),
    ensures
        unique_names(replace_or_append(s, p)),
        forall|i: int|
            0 <= i < replace_or_append(s, p).len() && (#[trigger] replace_or_append(s, p)[i]).name@
                == p.name@ ==> replace_or_append(s, p)[i] == p,
    decreases s.len(),
{
    let r = replace_or_append(s, p);
    if s.len() == 0 {
        assert(r[0] == p);
    } else if s[0].name@ == p.name@ {
        assert forall|i: int, j: int| 0 <= i < j < r.len() implies r[i].name@ != r[j].name@ by {
            if i == 0 {
                assert(r[j] == s[j]);
                assert(s[0].name@ != s[j].name@);
            } else {
                assert(r[i] == s[i] && r[j] == s[j]);
            }
        }
        assert forall|i: int| 0 <= i < r.len() && (#[trigger] r[i]).name@ == p.name@ implies r[i]
            == p by {
            if i > 0 {
                assert(r[i] == s[i]);
                assert(s[i].name@ != s[0].name@);
            }
        }
    } else {
        let d = s.drop_first();
        assert forall|i: int, j: int| 0 <= i < j < d.len() implies d[i].name@ != d[j].name@ by {
            assert(d[i] == s[i + 1] && d[j] == s[j + 1]);
        }
        lemma_replace_or_append_unique(d, p);
        lemma_replace_or_append_props(d, p);
        let rd = replace_or_append(d, p);
        assert forall|i: int, j: int| 0 <= i < j < r.len() implies r[i].name@ != r[j].name@ by {
            if i == 0 {
                assert(r[0] == s[0]);
                assert(r[j] == rd[j - 1]);
                if rd[j - 1] == p {
                    assert(s[0].name@ != p.name@);
                } else {
                    assert(d.contains(rd[j - 1]));
                    let k = choose|k: int| 0 <= k < d.len() && d[k] == rd[j - 1];
                    assert(s[k + 1] == d[k]);
                    assert(s[0].name@ != s[k + 1].name@);
                }
            } else {
                assert(r[i] == rd[i - 1] && r[j] == rd[j - 1]);
            }
        }
        assert forall|i: int| 0 <= i < r.len() && (#[trigger] r[i]).name@ == p.name@ implies r[i]
            == p by {
            if i == 0 {
                assert(r[0] == s[0]);
            } else {
                assert(r[i] == rd[i - 1]);
            }
        }
    }
}

proof fn lemma_two_indices_count(s: Seq<ServerProfile>, i: int, j: int)
    requires
        0 <= i < j < s.len(),
        s[i] == s[j],
    ensures
        s.to_multiset().count(s[i]) >= 2,
{
    let x = s[i];
    assert(s.remove(i)[j - 1] == x);
    assert(s.remove(i).contains(x));
    assert(s.remove(i).to_multiset().count(x) > 0);
}

proof fn lemma_count_two_indices(s: Seq<ServerProfile>, x: ServerProfile)
    requires
        s.to_multiset().count(x) >= 2,
    ensures
        exists|i: int, j: int| 0 <= i < j < s.len() && s[i] == x && s[j] == x,
{
    assert(s.contains(x));
    let i = choose|i: int| 0 <= i < s.len() && s[i] == x;
    assert(s.remove(i).to_multiset().count(x) > 0);
    assert(s.remove(i).contains(x));
    let k = choose|k: int| 0 <= k < s.remove(i).len() && s.remove(i)[k] == x;
    if k < i {
        assert(s[k] == x);
        assert(0 <= k < i < s.len() && s[k] == x && s[i] == x);
    } else {
        assert(s[k + 1] == x);
        assert(0 <= i < k + 1 < s.len() && s[i] == x && s[k + 1] == x);
    }
}

proof fn lemma_replace_or_append_at(s: Seq<ServerProfile>, p: ServerProfile, i: int)
    requires
        0 <= i < s.len(),
        s[i].name@ == p.name@,
        forall|j: int| 0 <= j < i ==> s[j].name@ != p.name@,
    ensures
        replace_or_append(s, p) == s.update(i, p),
    decreases i,
{
    if i == 0 {
        assert(replace_or_append(s, p) =~= s.update(0, p));
    } else {
        let d = s.drop_first();
        lemma_replace_or_append_at(d, p, i - 1);
        assert(replace_or_append(s, p) =~= s.update(i, p));
    }
}

proof fn lemma_replace_or_append_absent(s: Seq<ServerProfile>, p: ServerProfile)
    requires
        forall|j: int| 0 <= j < s.len() ==> s[j].name@ != p.name@,
    ensures
        replace_or_append(s, p) == s.push(p),
    decreases s.len(),
{
    if s.len() > 0 {
        lemma_replace_or_append_absent(s.drop_first(), p);
    }
    assert(replace_or_append(s, p) =~= s.push(p));
}

/// Writes `p` over the first profile with the same name, or appends it.
fn replace_or_append_exec(v: &mut Vec<ServerProfile>, p: ServerProfile)
    ensures
        final(v)@ == replace_or_append(old(v)@, p),
{
    let n = v.len();
    let mut i: usize = 0;
    while i < n
        invariant
            n == v@.len(),
            0 <= i <= n,
            v@ == old(v)@,
            forall|j: int| 0 <= j < i ==> v@[j].name@ != p.name@,
        decreases n - i,
    {
        if v[i].name == p.name {
            proof {
                lemma_replace_or_append_at(v@, p, i as int);
            }
            v[i] = p;
            return ;
        }
        i = i + 1;
    }
    proof {
        lemma_replace_or_append_absent(v@, p);
    }
    v.push(p);
}

/// What an upsert guarantees. With `mid` the profile list after writing `p`
/// over its namesake (or appending it): the result is a sorting of `mid` by
/// `last_used_at` descending, truncated to the ten most recent — stated both
/// directly and through the clauses that follow from it: the store is sorted
/// and capped at ten; it holds nothing beyond `mid`, only `p` and former
/// entries; nothing is dropped while `mid` fits the cap; whatever is dropped
/// is no newer than everything kept; and a strictly newest `p` ends up in
/// front.
pub open spec fn upsert_post(pre: AppConfig, post: AppConfig, p: ServerProfile) -> bool {
    let s0 = pre.recent_profiles@;
    let mid = replace_or_append(s0, p);
    let out = post.recent_profiles@;
    let cap = if mid.len() <= 10 {
        mid.len() as int
    } else {
        10
    };
    &&& post.version == pre.version
    &&& post.default_env_vars == pre.default_env_vars
    &&& post.settings == pre.settings
    &&& (exists|srt: Seq<ServerProfile>|
        {
            &&& #[trigger] sorted_desc(srt)
            &&& srt.to_multiset() == mid.to_multiset()
            &&& out == srt.take(cap)
        })
    &&& sorted_desc(out)
    &&& out.len() == cap
    &&& out.to_multiset().subset_of(mid.to_multiset())
    &&& (mid.len() <= 10 ==> out.to_multiset() == mid.to_multiset())
    &&& (forall|i: int| 0 <= i < out.len() ==> #[trigger] out[i] == p || s0.contains(out[i]))
    &&& (forall|i: int|
        0 <= i < mid.len() ==> out.contains(#[trigger] mid[i]) || (forall|k: int|
            0 <= k < out.len() ==> #[trigger] out[k].last_used_at >= mid[i].last_used_at))
    &&& ((forall|j: int| 0 <= j < s0.len() ==> #[trigger] s0[j].last_used_at < p.last_used_at)
        ==> out.len() > 0 && out[0] == p)
}

/// Saving over a namesake replaces it in place: in a store within its cap
/// whose profile names are pairwise distinct, upserting a profile whose name
/// is already present keeps the count, keeps the names pairwise distinct,
/// and leaves exactly one profile with that name — the new one.
pub proof fn lemma_upsert_replaces_in_place(pre: AppConfig, post: AppConfig, p: ServerProfile)
    requires
        upsert_post(pre, post, p),
        pre.recent_profiles@.len() <= 10,
        unique_names(pre.recent_profiles@),
        has_name(pre.recent_profiles@, p.name@),
    ensures
        post.recent_profiles@.len() == pre.recent_profiles@.len(),
        unique_names(post.recent_profiles@),
        post.recent_profiles@.contains(p),
        forall|i: int|
            0 <= i < post.recent_profiles@.len() && (#[trigger] post.recent_profiles@[i]).name@
                == p.name@ ==> post.recent_profiles@[i] == p,
{
    let s0 = pre.recent_profiles@;
    let mid = replace_or_append(s0, p);
    let out = post.recent_profiles@;
    lemma_replace_or_append_props(s0, p);
    lemma_replace_or_append_unique(s0, p);
    assert(out.to_multiset() == mid.to_multiset());
    assert forall|i: int| 0 <= i < out.len() implies mid.contains(#[trigger] out[i]) by {
        assert(out.contains(out[i]));
        assert(out.to_multiset().count(out[i]) > 0);
        assert(mid.to_multiset().count(out[i]) > 0);
    }
    assert forall|i: int| 0 <= i < out.len() && (#[trigger] out[i]).name@ == p.name@ implies out[i]
        == p by {
        assert(mid.contains(out[i]));
        let k = choose|k: int| 0 <= k < mid.len() && mid[k] == out[i];
        assert(mid[k].name@ == p.name@);
    }
    assert(mid.contains(p));
    assert(mid.to_multiset().count(p) > 0);
    assert(out.to_multiset().count(p) > 0);
    assert(out.contains(p));
    assert forall|i: int, j: int| 0 <= i < j < out.len() implies out[i].name@ != out[j].name@ by {
        if out[i].name@ == out[j].name@ {
            if out[i] == out[j] {
                lemma_two_indices_count(out, i, j);
                assert(mid.to_multiset().count(out[i]) >= 2);
                lemma_count_two_indices(mid, out[i]);
                let (a, b) = choose|a: int, b: int|
                    0 <= a < b < mid.len() && mid[a] == out[i] && mid[b] == out[i];
                assert(mid[a].name@ != mid[b].name@);
                assert(false);
            } else {
                assert(mid.contains(out[i]));
                assert(mid.contains(out[j]));
                let a = choose|a: int| 0 <= a < mid.len() && mid[a] == out[i];
                let b = choose|b: int| 0 <= b < mid.len() && mid[b] == out[j];
                assert(a != b);
                if a < b {
                    assert(mid[a].name@ != mid[b].name@);
                } else {
                    assert(mid[b].name@ != mid[a].name@);
                }
                assert(false);
            }
        }
    }
}

impl AppConfig {
    /// Saves `p` in the store: replaces its namesake or appends it, then
    /// re-sorts by `last_used_at` descending and keeps the ten most recent.
    pub fn upsert(&mut self, p: ServerProfile)
        ensures
            upsert_post(*old(self), *final(self), p),
            has_name(old(self).recent_profiles@, p.name@) ==> final(self).recent_profiles@.len()
                == (if old(self).recent_profiles@.len() <= 10 {
                old(self).recent_profiles@.len() as int
            } else {
                10
            }),
            !has_name(old(self).recent_profiles@, p.name@) ==> final(self).recent_profiles@.len()
                == (if old(self).recent_profiles@.len() + 1 <= 10 {
                old(self).recent_profiles@.len() + 1
            } else {
                10
            }),
    {
        let ghost s0 = self.recent_profiles@;
        proof {
            lemma_replace_or_append_props(s0, p);
        }
        let ghost pp = p;
        replace_or_append_exec(&mut self.recent_profiles, p);
        let ghost mid = self.recent_profiles@;
        sort_profiles_desc(&mut self.recent_profiles);
        let ghost srt = self.recent_profiles@;
        self.recent_profiles.truncate(10);
        let ghost out = self.recent_profiles@;
        proof {
            assert(mid.to_multiset().len() == srt.to_multiset().len());
            assert(srt.len() == mid.len());
            let cap = if mid.len() <= 10 {
                mid.len() as int
            } else {
                10
            };
            if mid.len() <= 10 {
                assert(out =~= srt);
            }
            assert(out =~= srt.take(cap));
            assert(srt =~= srt.take(cap) + srt.skip(cap));
            vstd::seq_lib::lemma_multiset_commutative(srt.take(cap), srt.skip(cap));
            assert(out.to_multiset().subset_of(mid.to_multiset()));
            assert forall|i: int| 0 <= i < out.len() implies #[trigger] out[i] == pp
                || s0.contains(out[i]) by {
                assert(out[i] == srt[i]);
                assert(srt.contains(srt[i]));
                assert(srt.to_multiset().count(out[i]) > 0);
                assert(mid.to_multiset().count(out[i]) > 0);
                assert(mid.contains(out[i]));
                let j = choose|j: int| 0 <= j < mid.len() && mid[j] == out[i];
                assert(mid[j] == pp || s0.contains(mid[j]));
            }
            assert forall|i: int| 0 <= i < mid.len() implies out.contains(#[trigger] mid[i]) || (
            forall|k: int|
                0 <= k < out.len() ==> #[trigger] out[k].last_used_at
                    >= mid[i].last_used_at) by {
                assert(mid.contains(mid[i]));
                assert(mid.to_multiset().count(mid[i]) > 0);
                assert(srt.to_multiset().count(mid[i]) > 0);
                assert(srt.contains(mid[i]));
                let k0 = choose|k0: int| 0 <= k0 < srt.len() && srt[k0] == mid[i];
                if k0 < out.len() {
                    assert(out[k0] == srt[k0]);
                    assert(out.contains(mid[i]));
                } else {
                    assert forall|k: int| 0 <= k < out.len() implies #[trigger] out[k].last_used_at
                        >= mid[i].last_used_at by {
                        assert(out[k] == srt[k]);
                        assert(srt[k].last_used_at >= srt[k0].last_used_at);
                    }
                }
            }
            if (forall|j: int|
                0 <= j < s0.len() ==> #[trigger] s0[j].last_used_at < pp.last_used_at) {
                assert(mid.contains(pp));
                let jp = choose|jp: int| 0 <= jp < mid.len() && mid[jp] == pp;
                assert(mid.len() >= 1);
                assert(out.len() > 0);
                assert(out.contains(pp)) by {
                    if !out.contains(pp) {
                        assert(forall|k: int|
                            0 <= k < out.len() ==> #[trigger] out[k].last_used_at
                                >= mid[jp].last_used_at);
                        assert(out[0] == pp || s0.contains(out[0]));
                        if out[0] == pp {
                            assert(out.contains(pp));
                        } else {
                            let j0 = choose|j0: int| 0 <= j0 < s0.len() && s0[j0] == out[0];
                            assert(s0[j0].last_used_at < pp.last_used_at);
                            assert(out[0].last_used_at >= pp.last_used_at);
                        }
                        assert(false);
                    }
                }
                let kp = choose|kp: int| 0 <= kp < out.len() && out[kp] == pp;
                assert(out[0].last_used_at >= out[kp].last_used_at);
                if out[0] != pp {
                    assert(s0.contains(out[0]));
                    let j0 = choose|j0: int| 0 <= j0 < s0.len() && s0[j0] == out[0];
                    assert(s0[j0].last_used_at < pp.last_used_at);
                    assert(false);
                }
            }
        }
    }

    /// Removes every profile whose id is `id`; a no-op when none matches.
    pub fn delete_profile(&mut self, id: &String)
        ensures
            final(self).recent_profiles@ == old(self).recent_profiles@.filter(
                |q: ServerProfile| q.id@ != id@,
            ),
            final(self).version == old(self).version,
            final(self).default_env_vars == old(self).default_env_vars,
            final(self).settings == old(self).settings,
    {
        broadcast use vstd::prelude::Seq::lemma_filter_push;

        let ghost s0 = self.recent_profiles@;
        let n = self.recent_profiles.len();
        let mut out: Vec<ServerProfile> = Vec::new();
        let mut i: usize = 0;
        while i < n
            invariant
                0 <= i <= n,
                n == s0.len(),
                self.recent_profiles@ == s0.subrange(i as int, n as int),
                out@ == s0.subrange(0, i as int).filter((|q: ServerProfile| q.id@ != id@)),
                self.version == old(self).version,
                self.default_env_vars == old(self).default_env_vars,
                self.settings == old(self).settings,
                s0 == old(self).recent_profiles@,
            decreases n - i,
        {
            let q = self.recent_profiles.remove(0);
            proof {
                assert(q == s0[i as int]);
                assert(self.recent_profiles@ =~= s0.subrange(i + 1, n as int));
                assert(s0.subrange(0, i + 1) =~= s0.subrange(0, i as int).push(q));
                s0.subrange(0, i as int).lemma_filter_push(q, |q2: ServerProfile| q2.id@ != id@);
            }
            if !(q.id == *id) {
                out.push(q);
            }
            i = i + 1;
        }
        proof {
            assert(s0.subrange(0, n as int) =~= s0);
        }
        self.recent_profiles = out;
    }

    /// Builds a profile named `name` with a fresh id and the current time as
    /// both timestamps, and saves it in the store.
    pub fn save_profile(
        &mut self,
        name: String,
        command: String,
        working_dir: String,
        env_vars: Vec<(String, String)>,
    )
        ensures
            exists|p: ServerProfile|
                #[trigger] upsert_post(*old(self), *final(self), p) && p.name == name && p.command
                    == command && p.working_directory == working_dir && p.env_vars == env_vars
                    && p.created_at == p.last_used_at && p.id@.len() == 36,
    {
        let id = crate::ids::new_uuid_string();
        let t = crate::ids::now_millis();
        let p = ServerProfile {
            id,
            name,
            command,
            working_directory: working_dir,
            env_vars,
            created_at: t,
            last_used_at: t,
        };
        let ghost gp = p;
        self.upsert(p);
        proof {
            assert(upsert_post(*old(self), *self, gp) && gp.created_at == gp.last_used_at
                && gp.id@.len() == 36);
        }
    }

    /// The application's configuration directory: `mcp-inspector-desktop`
    /// under the per-user configuration directory, when the platform defines
    /// one.
    pub fn config_dir() -> (r: Option<String>)
        ensures
            match r {
                Some(d) => ends_with(d@, app_dir_suffix()),
                None => true,
            },
    {
        match os_config_dir() {
            None => None,
            Some(base) => {
                let d = app_dir_path(base);
                proof {
                    assert(d@.subrange(
                        d@.len() - app_dir_suffix().len(),
                        d@.len() as int,
                    ) =~= app_dir_suffix());
                }
                Some(d)
            },
        }
    }

    /// The configuration file path: `config.json` in the configuration
    /// directory.
    pub fn config_path() -> (r: Option<String>)
        ensures
            match r {
                Some(f) => ends_with(f@, config_file_suffix()),
                None => true,
            },
    {
        match Self::config_dir() {
            None => None,
            Some(dir) => {
                let ghost d = dir@;
                let f = config_file_path(dir);
                proof {
                    reveal_strlit("/mcp-inspector-desktop");
                    reveal_strlit("/config.json");
                    reveal_strlit("/mcp-inspector-desktop/config.json");
                    assert(config_file_suffix() =~= app_dir_suffix() + "/config.json"@);
                    assert(f@.subrange(
                        f@.len() - config_file_suffix().len(),
                        f@.len() as int,
                    ) =~= d.subrange(d.len() - app_dir_suffix().len(), d.len() as int)
                        + "/config.json"@);
                }
                Some(f)
            },
        }
    }
}

/// `s` ends in `sfx`.
pub open spec fn ends_with(s: Seq<char>, sfx: Seq<char>) -> bool {
    s.len() >= sfx.len() && s.subrange(s.len() - sfx.len(), s.len() as int) == sfx
}

/// The configuration directory under a given base directory.
pub fn app_dir_path(base: String) -> (r: String)
    ensures
        r@ == base@ + app_dir_suffix(),
{
    let mut d = base;
    d.append("/mcp-inspector-desktop");
    d
}

/// The configuration file inside a given configuration directory.
pub fn config_file_path(dir: String) -> (r: String)
    ensures
        r@ == dir@ + "/config.json"@,
{
    let mut f = dir;
    f.append("/config.json");
    f
}

/// The directory name the configuration lives under.
pub open spec fn app_dir_suffix() -> Seq<char> {
    "/mcp-inspector-desktop"@
}

/// The path tail of the configuration file.
pub open spec fn config_file_suffix() -> Seq<char> {
    "/mcp-inspector-desktop/config.json"@
}

/// Relies on `dirs::config_dir`: the platform's per-user configuration
/// directory, when one is defined and its path is valid Unicode. Nothing is
/// promised of its value.
#[verifier::external_body]
fn os_config_dir() -> Option<String> {
    dirs::config_dir().and_then(|p| p.into_os_string().into_string().ok())
}

} // verus!
