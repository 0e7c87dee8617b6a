//! The account pool and its token lifecycle: selection with pinning, a
//! 60-second sticky window and round-robin rotation; refresh gating with a
//! 300-second skew; project-id resolution; and incremental reload that keeps
//! the pin and sticky references pointing at live accounts.
//!
//! The pool is a sequential value. Selection and the refresh / resolution
//! steps are pure state transitions; the surrounding process supplies the
//! clock readings and performs the OAuth and resolver calls, feeding their
//! results back in through [`TokenManager::apply_refresh`] and
//! [`TokenManager::apply_project_id`].

use vstd::prelude::*;

verus! {

/// In-memory record of one upstream account.
///
/// `timestamp` is the Unix second at which `access_token` expires;
/// `account_path` is the canonical on-disk JSON file the record came from.
#[derive(Debug)]
pub struct ProxyToken {
    pub account_id: String,
    pub access_token: String,
    pub refresh_token: String,
    pub expires_in: i64,
    pub timestamp: i64,
    pub email: String,
    pub account_path: String,
    pub project_id: Option<String>,
}

impl Clone for ProxyToken {
    fn clone(&self) -> (r: Self)
        ensures
            r == *self,
    {
        ProxyToken {
            account_id: self.account_id.clone(),
            access_token: self.access_token.clone(),
            refresh_token: self.refresh_token.clone(),
            expires_in: self.expires_in,
            timestamp: self.timestamp,
            email: self.email.clone(),
            account_path: self.account_path.clone(),
            project_id: match &self.project_id {
                Some(p) => Some(p.clone()),
                None => None,
            },
        }
    }
}

/// Why a token could not be handed out.
#[derive(Debug)]
pub enum TokenError {
    PoolEmpty,
    RefreshFailed(String),
    ProjectResolutionFailed(String),
}

/// A token as handed to the dispatcher: a snapshot, never a live record.
#[derive(Debug)]
pub struct TokenGrant {
    pub access_token: String,
    pub project_id: String,
    pub email: String,
    pub expiry_timestamp: i64,
}

/// What a grant must satisfy at the moment it is produced: the expiry lies
/// no further than the refresh skew in the past, and the project id is
/// non-empty.
pub open spec fn grant_fresh(g: TokenGrant, now_unix: i64) -> bool {
    &&& g.expiry_timestamp >= now_unix - 300
    &&& g.project_id@.len() > 0
}

/// The next thing the caller of the token flow has to do.
#[derive(Debug)]
pub enum TokenStep {
    /// The selected account's token is stale: run the OAuth refresher with
    /// `token.refresh_token`, then report back.
    NeedRefresh { token: ProxyToken },
    /// The token is valid but carries no project id: run the resolver with
    /// `token.access_token`, then report back.
    NeedProjectId { token: ProxyToken },
    /// Nothing left to do.
    Ready { grant: TokenGrant },
}

pub open spec fn has_id(tokens: Seq<ProxyToken>, id: Seq<char>) -> bool {
    exists|i: int| 0 <= i < tokens.len() && tokens[i].account_id@ == id
}

pub open spec fn index_of_id(tokens: Seq<ProxyToken>, id: Seq<char>) -> int {
    choose|i: int| 0 <= i < tokens.len() && tokens[i].account_id@ == id
}

pub open spec fn ids_unique(tokens: Seq<ProxyToken>) -> bool {
    forall|i: int, j: int|
        0 <= i < j < tokens.len() ==> tokens[i].account_id@ != tokens[j].account_id@
}

proof fn lemma_index_of_id(tokens: Seq<ProxyToken>, id: Seq<char>, i: int)
    requires
        ids_unique(tokens),
        0 <= i < tokens.len(),
        tokens[i].account_id@ == id,
    ensures
        index_of_id(tokens, id) == i,
{
    assert(has_id(tokens, id));
    let j = index_of_id(tokens, id);
    assert(0 <= j < tokens.len() && tokens[j].account_id@ == id);
}

/// The shared selection state.
#[derive(Debug)]
pub struct TokenManager {
    pub tokens: Vec<ProxyToken>,
    pub current_index: u64,
    pub last_used: Option<(String, u64)>,
    pub pinned: Option<String>,
}

impl TokenManager {
    pub open spec fn wf(&self) -> bool {
        ids_unique(self.tokens@)
    }
}

/// Both selection references point at accounts that are in the pool.
/// Re-established by every reload; a pin set by hand may dangle until then.
pub open spec fn references_valid(m: TokenManager) -> bool {
    &&& match m.last_used {
        Some((id, _)) => has_id(m.tokens@, id@),
        None => true,
    }
    &&& match m.pinned {
        Some(id) => has_id(m.tokens@, id@),
        None => true,
    }
}

/// The quota group that is exempt from the sticky window.
pub open spec fn image_gen() -> Seq<char> {
    "image_gen"@
}

/// Rule 1: an explicitly pinned account that is present in the pool wins,
/// unless the caller demands rotation.
pub open spec fn pinned_applies(m: TokenManager, force_rotate: bool) -> bool {
    &&& !force_rotate
    &&& match m.pinned {
        Some(id) => has_id(m.tokens@, id@),
        None => false,
    }
}

/// Rule 2: within 60 seconds of the last non-image selection, the same
/// account is reused, provided it is still in the pool.
pub open spec fn sticky_applies(
    m: TokenManager,
    group: Seq<char>,
    force_rotate: bool,
    now_mono: u64,
) -> bool {
    &&& !force_rotate
    &&& group != image_gen()
    &&& match m.last_used {
        Some((id, t)) => t <= now_mono && now_mono - t < 60 && has_id(m.tokens@, id@),
        None => false,
    }
}

/// Rule 3 otherwise: round-robin on the monotonic counter.
pub open spec fn rotation_applies(
    m: TokenManager,
    group: Seq<char>,
    force_rotate: bool,
    now_mono: u64,
) -> bool {
    !pinned_applies(m, force_rotate) && !sticky_applies(m, group, force_rotate, now_mono)
}

pub open spec fn rotation_index(m: TokenManager) -> int {
    m.current_index as int % m.tokens@.len() as int
}

/// The position selected by the first matching rule, for a non-empty pool.
pub open spec fn selected_index(
    m: TokenManager,
    group: Seq<char>,
    force_rotate: bool,
    now_mono: u64,
) -> int {
    if pinned_applies(m, force_rotate) {
        match m.pinned {
            Some(id) => index_of_id(m.tokens@, id@),
            None => 0,
        }
    } else if sticky_applies(m, group, force_rotate, now_mono) {
        match m.last_used {
            Some((id, _)) => index_of_id(m.tokens@, id@),
            None => 0,
        }
    } else {
        rotation_index(m)
    }
}

pub open spec fn wrap_inc(i: u64) -> u64 {
    if i == u64::MAX {
        0
    } else {
        (i + 1) as u64
    }
}

/// How one successful selection changes the state: the pool and the pin are
/// untouched; the rotation counter advances exactly when rule 3 fired; the
/// sticky slot is rewritten exactly when the group is sticky and rule 1 did
/// not fire. An `image_gen` call leaves `last_used` as it was.
pub open spec fn select_transition(
    pre: TokenManager,
    post: TokenManager,
    group: Seq<char>,
    force_rotate: bool,
    now_mono: u64,
) -> bool {
    &&& post.tokens == pre.tokens
    &&& post.pinned == pre.pinned
    &&& post.current_index == (if rotation_applies(pre, group, force_rotate, now_mono) {
        wrap_inc(pre.current_index)
    } else {
        pre.current_index
    })
    &&& post.last_used == (if group == image_gen() || pinned_applies(pre, force_rotate) {
        pre.last_used
    } else {
        Some((pre.tokens@[selected_index(pre, group, force_rotate, now_mono)].account_id, now_mono))
    })
}

/// A token is refreshed preemptively once `now` is within 300 seconds of its
/// expiry.
pub open spec fn spec_needs_refresh(t: ProxyToken, now_unix: i64) -> bool {
    now_unix >= t.timestamp - 300
}

/// A usable project id is present and non-empty.
pub open spec fn spec_project_ready(t: ProxyToken) -> bool {
    match t.project_id {
        Some(p) => p@.len() > 0,
        None => false,
    }
}

/// A record after its access token was replaced.
pub open spec fn with_refreshed(t: ProxyToken, access: String, expires_in: i64, ts: i64) -> ProxyToken {
    ProxyToken { access_token: access, expires_in: expires_in, timestamp: ts, ..t }
}

/// A record after its project id was resolved.
pub open spec fn with_project(t: ProxyToken, project_id: String) -> ProxyToken {
    ProxyToken { project_id: Some(project_id), ..t }
}

/// Inserting one record: replaces the entry with the same id, else appends.
pub open spec fn upsert(pool: Seq<ProxyToken>, t: ProxyToken) -> Seq<ProxyToken> {
    if has_id(pool, t.account_id@) {
        pool.update(index_of_id(pool, t.account_id@), t)
    } else {
        pool.push(t)
    }
}

pub open spec fn upsert_all(pool: Seq<ProxyToken>, ts: Seq<ProxyToken>) -> Seq<ProxyToken>
    decreases ts.len(),
{
    if ts.len() == 0 {
        pool
    } else {
        upsert(upsert_all(pool, ts.drop_last()), ts.last())
    }
}

/// Keeps exactly the entries whose id also occurs in `keep`, in order.
pub open spec fn prune(pool: Seq<ProxyToken>, keep: Seq<ProxyToken>) -> Seq<ProxyToken>
    decreases pool.len(),
{
    if pool.len() == 0 {
        pool
    } else {
        let rest = prune(pool.drop_last(), keep);
        if has_id(keep, pool.last().account_id@) {
            rest.push(pool.last())
        } else {
            rest
        }
    }
}

proof fn lemma_upsert_props(pool: Seq<ProxyToken>, t: ProxyToken)
    requires
        ids_unique(pool),
    ensures
        ids_unique(upsert(pool, t)),
        forall|id: Seq<char>| #[trigger]
            has_id(upsert(pool, t), id) <==> (has_id(pool, id) || id == t.account_id@),
{
    let out = upsert(pool, t);
    if has_id(pool, t.account_id@) {
        let i = index_of_id(pool, t.account_id@);
        assert(0 <= i < pool.len() && pool[i].account_id@ == t.account_id@);
        assert forall|id: Seq<char>| #[trigger] has_id(out, id) implies (has_id(pool, id) || id
            == t.account_id@) by {
            let k = choose|k: int| 0 <= k < out.len() && out[k].account_id@ == id;
            if k != i {
                assert(pool[k].account_id@ == id);
            }
        }
        assert forall|id: Seq<char>| has_id(pool, id) || id == t.account_id@ implies #[trigger]
            has_id(out, id) by {
            if id == t.account_id@ {
                assert(out[i].account_id@ == id);
            } else {
                let k = choose|k: int| 0 <= k < pool.len() && pool[k].account_id@ == id;
                assert(k != i);
                assert(out[k].account_id@ == id);
            }
        }
    } else {
        assert forall|id: Seq<char>| #[trigger] has_id(out, id) implies (has_id(pool, id) || id
            == t.account_id@) by {
            let k = choose|k: int| 0 <= k < out.len() && out[k].account_id@ == id;
            if k < pool.len() {
                assert(pool[k].account_id@ == id);
            }
        }
        assert forall|id: Seq<char>| has_id(pool, id) || id == t.account_id@ implies #[trigger]
            has_id(out, id) by {
            if id == t.account_id@ {
                assert(out[pool.len() as int].account_id@ == id);
            } else {
                let k = choose|k: int| 0 <= k < pool.len() && pool[k].account_id@ == id;
                assert(out[k].account_id@ == id);
            }
        }
        assert forall|i: int, j: int| 0 <= i < j < out.len() implies out[i].account_id@
            != out[j].account_id@ by {
            if j == pool.len() {
                assert(out[j] == t);
                if out[i].account_id@ == t.account_id@ {
                    assert(has_id(pool, t.account_id@));
                }
            }
        }
    }
}

proof fn lemma_upsert_all_props(pool: Seq<ProxyToken>, ts: Seq<ProxyToken>)
    requires
        ids_unique(pool),
    ensures
        ids_unique(upsert_all(pool, ts)),
        forall|id: Seq<char>| #[trigger]
            has_id(upsert_all(pool, ts), id) <==> (has_id(pool, id) || has_id(ts, id)),
    decreases ts.len(),
{
    if ts.len() == 0 {
        assert forall|id: Seq<char>| #[trigger]
            has_id(upsert_all(pool, ts), id) <==> (has_id(pool, id) || has_id(ts, id)) by {
            if has_id(ts, id) {
                let k = choose|k: int| 0 <= k < ts.len() && ts[k].account_id@ == id;
                assert(false);
            }
        }
    } else {
        lemma_upsert_all_props(pool, ts.drop_last());
        let mid = upsert_all(pool, ts.drop_last());
        lemma_upsert_props(mid, ts.last());
        assert forall|id: Seq<char>| #[trigger]
            has_id(upsert_all(pool, ts), id) <==> (has_id(pool, id) || has_id(ts, id)) by {
            assert(has_id(upsert_all(pool, ts), id) <==> (has_id(mid, id) || id
                == ts.last().account_id@));
            if has_id(ts, id) {
                let k = choose|k: int| 0 <= k < ts.len() && ts[k].account_id@ == id;
                if k < ts.len() - 1 {
                    assert(ts.drop_last()[k].account_id@ == id);
                    assert(has_id(ts.drop_last(), id));
                } else {
                    assert(id == ts.last().account_id@);
                }
            }
            if has_id(ts.drop_last(), id) {
                let k = choose|k: int|
                    0 <= k < ts.drop_last().len() && ts.drop_last()[k].account_id@ == id;
                assert(ts[k].account_id@ == id);
                assert(has_id(ts, id));
            }
            if id == ts.last().account_id@ {
                assert(ts[ts.len() - 1].account_id@ == id);
                assert(has_id(ts, id));
            }
        }
    }
}

proof fn lemma_prune_props(pool: Seq<ProxyToken>, keep: Seq<ProxyToken>)
    requires
        ids_unique(pool),
    ensures
        ids_unique(prune(pool, keep)),
        forall|id: Seq<char>| #[trigger]
            has_id(prune(pool, keep), id) <==> (has_id(pool, id) && has_id(keep, id)),
        forall|k: int| #![trigger prune(pool, keep)[k]]
            0 <= k < prune(pool, keep).len() ==> has_id(pool, prune(pool, keep)[k].account_id@),
    decreases pool.len(),
{
    if pool.len() > 0 {
        assert(ids_unique(pool.drop_last()));
        lemma_prune_props(pool.drop_last(), keep);
        let rest = prune(pool.drop_last(), keep);
        let out = prune(pool, keep);
        assert forall|k: int| 0 <= k < rest.len() implies has_id(pool, rest[k].account_id@) by {
            let j = choose|j: int|
                0 <= j < pool.drop_last().len() && pool.drop_last()[j].account_id@
                    == rest[k].account_id@;
            assert(pool[j].account_id@ == rest[k].account_id@);
        }
        assert forall|id: Seq<char>| #[trigger]
            has_id(out, id) implies (has_id(pool, id) && has_id(keep, id)) by {
            let k = choose|k: int| 0 <= k < out.len() && out[k].account_id@ == id;
            if k < rest.len() {
                assert(has_id(rest, id));
                assert(has_id(pool.drop_last(), id));
                let j = choose|j: int|
                    0 <= j < pool.drop_last().len() && pool.drop_last()[j].account_id@ == id;
                assert(pool[j].account_id@ == id);
            } else {
                assert(out[k] == pool.last());
                assert(pool[pool.len() - 1].account_id@ == id);
            }
        }
        assert forall|id: Seq<char>| has_id(pool, id) && has_id(keep, id) implies #[trigger]
            has_id(out, id) by {
            let k = choose|k: int| 0 <= k < pool.len() && pool[k].account_id@ == id;
            if k < pool.len() - 1 {
                assert(pool.drop_last()[k].account_id@ == id);
                assert(has_id(pool.drop_last(), id));
                assert(has_id(rest, id));
                let j = choose|j: int| 0 <= j < rest.len() && rest[j].account_id@ == id;
                assert(out[j].account_id@ == id);
            } else {
                assert(pool.last().account_id@ == id);
                assert(out[out.len() - 1].account_id@ == id);
            }
        }
        if has_id(keep, pool.last().account_id@) {
            assert forall|i: int, j: int| 0 <= i < j < out.len() implies out[i].account_id@
                != out[j].account_id@ by {
                if j == out.len() - 1 {
                    assert(out[j] == pool.last());
                    if out[i].account_id@ == pool.last().account_id@ {
                        assert(has_id(pool.drop_last(), out[i].account_id@));
                        let m = choose|m: int|
                            0 <= m < pool.drop_last().len() && pool.drop_last()[m].account_id@
                                == out[i].account_id@;
                        assert(pool[m].account_id@ == pool[pool.len() - 1].account_id@);
                    }
                }
            }
        }
    }
}

/// Compares a group name against the sticky-exempt group.
fn is_image_gen(quota_group: &str) -> (r: bool)
    ensures
        r == (quota_group@ == image_gen()),
{
    let g: String = quota_group.to_owned();
    let ig: String = "image_gen".to_owned();
    g == ig
}

/// First position holding `id`, if any.
fn find_index(tokens: &Vec<ProxyToken>, id: &String) -> (r: Option<usize>)
    ensures
        match r {
            Some(i) => 0 <= i < tokens@.len() && tokens@[i as int].account_id@ == id@,
            None => !has_id(tokens@, id@),
        },
{
    let n = tokens.len();
    let mut i: usize = 0;
    while i < n
        invariant
            n == tokens@.len(),
            0 <= i <= n,
            forall|j: int| 0 <= j < i ==> tokens@[j].account_id@ != id@,
        decreases n - i,
    {
        if tokens[i].account_id == *id {
            return Some(i);
        }
        i += 1;
    }
    None
}

impl TokenManager {
    /// An empty pool with all selection state cleared.
    pub fn new() -> (r: TokenManager)
        ensures
            r.wf(),
            r.tokens@.len() == 0,
            r.current_index == 0,
            r.last_used is None,
            r.pinned is None,
    {
        TokenManager { tokens: Vec::new(), current_index: 0, last_used: None, pinned: None }
    }

    pub fn len(&self) -> (r: usize)
        ensures
            r == self.tokens@.len(),
    {
        self.tokens.len()
    }

    /// Sets or clears the pinned account. Membership is not checked here;
    /// it is re-checked at selection and at reload.
    pub fn pin_account(&mut self, account_id: Option<String>)
        requires
            old(self).wf(),
        ensures
            final(self).wf(),
            final(self).pinned == account_id,
            final(self).tokens == old(self).tokens,
            final(self).current_index == old(self).current_index,
            final(self).last_used == old(self).last_used,
    {
        self.pinned = account_id;
    }

    pub fn pinned_account_id(&self) -> (r: Option<String>)
        ensures
            r == self.pinned,
    {
        match &self.pinned {
            Some(id) => Some(id.clone()),
            None => None,
        }
    }

    /// Selects an account by the three-rule policy and updates the sticky
    /// window. Returns a snapshot of the chosen record.
    pub fn select_account(&mut self, quota_group: &str, force_rotate: bool, now_mono: u64) -> (r:
        Result<ProxyToken, TokenError>)
        requires
            old(self).wf(),
        ensures
            final(self).wf(),
            r is Err <==> old(self).tokens@.len() == 0,
            r matches Err(e) ==> e is PoolEmpty,
            r is Err ==> *final(self) == *old(self),
            r matches Ok(t) ==> ({
                let sel = selected_index(*old(self), quota_group@, force_rotate, now_mono);
                &&& 0 <= sel < old(self).tokens@.len()
                &&& t == old(self).tokens@[sel]
                &&& select_transition(*old(self), *final(self), quota_group@, force_rotate, now_mono)
            }),
    {
        if self.tokens.len() == 0 {
            return Err(TokenError::PoolEmpty);
        }
        let ghost pre = *self;
        let image = is_image_gen(quota_group);
        let mut choice: Option<usize> = None;
        let mut by_pin: bool = false;
        if !force_rotate {
            match &self.pinned {
                Some(pid) => {
                    match find_index(&self.tokens, pid) {
                        Some(i) => {
                            proof {
                                lemma_index_of_id(self.tokens@, pid@, i as int);
                            }
                            choice = Some(i);
                            by_pin = true;
                        },
                        None => {},
                    }
                },
                None => {},
            }
        }
        proof {
            assert(by_pin <==> pinned_applies(pre, force_rotate));
        }
        if choice.is_none() && !force_rotate && !image {
            match &self.last_used {
                Some((id, t)) => {
                    if *t <= now_mono && now_mono - *t < 60 {
                        match find_index(&self.tokens, id) {
                            Some(i) => {
                                proof {
                                    lemma_index_of_id(self.tokens@, id@, i as int);
                                }
                                choice = Some(i);
                            },
                            None => {},
                        }
                    }
                },
                None => {},
            }
        }
        let idx: usize = match choice {
            Some(i) => i,
            None => {
                assert(rotation_applies(pre, quota_group@, force_rotate, now_mono));
                let len = self.tokens.len();
                let i = (self.current_index % (len as u64)) as usize;
                self.current_index = if self.current_index == u64::MAX {
                    0
                } else {
                    self.current_index + 1
                };
                i
            },
        };
        assert(idx as int == selected_index(pre, quota_group@, force_rotate, now_mono));
        let tok = (&self.tokens[idx]).clone();
        if !image && !by_pin {
            self.last_used = Some((tok.account_id.clone(), now_mono));
        }
        Ok(tok)
    }

    /// Whether the chosen token must be refreshed before use.
    pub fn needs_refresh(t: &ProxyToken, now_unix: i64) -> (r: bool)
        ensures
            r == spec_needs_refresh(*t, now_unix),
    {
        (now_unix as i128) >= (t.timestamp as i128) - 300
    }

    /// Runs selection and the two gates, and says what remains to be done.
    /// Whenever this returns `Ready`, the grant is fresh and carries a
    /// non-empty project id.
    pub fn get_token_plan(
        &mut self,
        quota_group: &str,
        force_rotate: bool,
        now_mono: u64,
        now_unix: i64,
    ) -> (r: Result<TokenStep, TokenError>)
        requires
            old(self).wf(),
        ensures
            final(self).wf(),
            r is Err <==> old(self).tokens@.len() == 0,
            r matches Err(e) ==> e is PoolEmpty,
            r is Err ==> *final(self) == *old(self),
            r matches Ok(step) ==> ({
                let sel = selected_index(*old(self), quota_group@, force_rotate, now_mono);
                let t = old(self).tokens@[sel];
                &&& 0 <= sel < old(self).tokens@.len()
                &&& select_transition(*old(self), *final(self), quota_group@, force_rotate, now_mono)
                &&& match step {
                    TokenStep::NeedRefresh { token } => token == t && spec_needs_refresh(
                        t,
                        now_unix,
                    ),
                    TokenStep::NeedProjectId { token } => token == t && !spec_needs_refresh(
                        t,
                        now_unix,
                    ) && !spec_project_ready(t),
                    TokenStep::Ready { grant } => {
                        &&& !spec_needs_refresh(t, now_unix)
                        &&& spec_project_ready(t)
                        &&& grant.access_token == t.access_token
                        &&& t.project_id matches Some(p) && grant.project_id == p
                        &&& grant.email == t.email
                        &&& grant.expiry_timestamp == t.timestamp
                        &&& grant_fresh(grant, now_unix)
                    },
                }
            }),
    {
        let tok = match self.select_account(quota_group, force_rotate, now_mono) {
            Ok(t) => t,
            Err(e) => {
                return Err(e);
            },
        };
        if Self::needs_refresh(&tok, now_unix) {
            return Ok(TokenStep::NeedRefresh { token: tok });
        }
        match &tok.project_id {
            Some(p) => {
                if !p.as_str().is_empty() {
                    let grant = TokenGrant {
                        access_token: tok.access_token.clone(),
                        project_id: p.clone(),
                        email: tok.email.clone(),
                        expiry_timestamp: tok.timestamp,
                    };
                    Ok(TokenStep::Ready { grant })
                } else {
                    Ok(TokenStep::NeedProjectId { token: tok })
                }
            },
            None => Ok(TokenStep::NeedProjectId { token: tok }),
        }
    }

    /// Commits a successful OAuth refresh: the shared record (when still in
    /// the pool) and the caller's snapshot both take the new access token and
    /// the validity window `now + expires_in`.
    pub fn apply_refresh(
        &mut self,
        token: &ProxyToken,
        access_token: String,
        expires_in: i64,
        now_unix: i64,
    ) -> (r: TokenStep)
        requires
            old(self).wf(),
            0 <= expires_in,
            now_unix + expires_in <= i64::MAX,
        ensures
            final(self).wf(),
            final(self).current_index == old(self).current_index,
            final(self).last_used == old(self).last_used,
            final(self).pinned == old(self).pinned,
            ({
                let ts = (now_unix + expires_in) as i64;
                &&& (if has_id(old(self).tokens@, token.account_id@) {
                    let i = index_of_id(old(self).tokens@, token.account_id@);
                    final(self).tokens@ == old(self).tokens@.update(
                        i,
                        with_refreshed(old(self).tokens@[i], access_token, expires_in, ts),
                    )
                } else {
                    final(self).tokens == old(self).tokens
                })
                &&& match r {
                    TokenStep::NeedProjectId { token: tk } => tk == with_refreshed(
                        *token,
                        access_token,
                        expires_in,
                        ts,
                    ) && !spec_project_ready(*token),
                    TokenStep::Ready { grant } => {
                        &&& spec_project_ready(*token)
                        &&& grant.access_token == access_token
                        &&& token.project_id matches Some(p) && grant.project_id == p
                        &&& grant.email == token.email
                        &&& grant.expiry_timestamp == ts
                        &&& grant_fresh(grant, now_unix)
                    },
                    TokenStep::NeedRefresh { .. } => false,
                }
            }),
    {
        let ts = now_unix + expires_in;
        match find_index(&self.tokens, &token.account_id) {
            Some(i) => {
                proof {
                    lemma_index_of_id(self.tokens@, token.account_id@, i as int);
                }
                let cur = (&self.tokens[i]).clone();
                let updated = ProxyToken {
                    access_token: access_token.clone(),
                    expires_in: expires_in,
                    timestamp: ts,
                    ..cur
                };
                self.tokens[i] = updated;
            },
            None => {},
        }
        let snap = token.clone();
        let fresh = ProxyToken {
            access_token: access_token.clone(),
            expires_in: expires_in,
            timestamp: ts,
            ..snap
        };
        match &fresh.project_id {
            Some(p) => {
                if !p.as_str().is_empty() {
                    let grant = TokenGrant {
                        access_token: fresh.access_token.clone(),
                        project_id: p.clone(),
                        email: fresh.email.clone(),
                        expiry_timestamp: fresh.timestamp,
                    };
                    TokenStep::Ready { grant }
                } else {
                    TokenStep::NeedProjectId { token: fresh }
                }
            },
            None => TokenStep::NeedProjectId { token: fresh },
        }
    }

    /// Commits a resolved project id. An empty id is refused: a grant never
    /// carries one. The shared record (when still in the pool) learns the id.
    pub fn apply_project_id(
        &mut self,
        token: &ProxyToken,
        project_id: String,
        now_unix: i64,
    ) -> (r: Result<TokenGrant, TokenError>)
        requires
            old(self).wf(),
            token.timestamp >= now_unix - 300,
        ensures
            final(self).wf(),
            final(self).current_index == old(self).current_index,
            final(self).last_used == old(self).last_used,
            final(self).pinned == old(self).pinned,
            project_id@.len() == 0 ==> *final(self) == *old(self) && (r matches Err(e) && e
                is ProjectResolutionFailed),
            project_id@.len() > 0 ==> ({
                &&& (if has_id(old(self).tokens@, token.account_id@) {
                    let i = index_of_id(old(self).tokens@, token.account_id@);
                    final(self).tokens@ == old(self).tokens@.update(
                        i,
                        with_project(old(self).tokens@[i], project_id),
                    )
                } else {
                    final(self).tokens == old(self).tokens
                })
                &&& r matches Ok(g) && {
                    &&& g.access_token == token.access_token
                    &&& g.project_id == project_id
                    &&& g.email == token.email
                    &&& g.expiry_timestamp == token.timestamp
                    &&& grant_fresh(g, now_unix)
                }
            }),
    {
        if project_id.as_str().is_empty() {
            return Err(
                TokenError::ProjectResolutionFailed("resolver returned an empty project id".to_owned()),
            );
        }
        match find_index(&self.tokens, &token.account_id) {
            Some(i) => {
                proof {
                    lemma_index_of_id(self.tokens@, token.account_id@, i as int);
                }
                let cur = (&self.tokens[i]).clone();
                let updated = ProxyToken { project_id: Some(project_id.clone()), ..cur };
                self.tokens[i] = updated;
            },
            None => {},
        }
        Ok(
            TokenGrant {
                access_token: token.access_token.clone(),
                project_id: project_id,
                email: token.email.clone(),
                expiry_timestamp: token.timestamp,
            },
        )
    }

    /// Upserts every entry of `items`, in order, into the pool.
    fn upsert_entries(&mut self, items: &Vec<ProxyToken>)
        requires
            old(self).wf(),
        ensures
            final(self).wf(),
            final(self).tokens@ == upsert_all(old(self).tokens@, items@),
            final(self).current_index == old(self).current_index,
            final(self).last_used == old(self).last_used,
            final(self).pinned == old(self).pinned,
    {
        let n = items.len();
        let mut j: usize = 0;
        proof {
            assert(items@.take(0) =~= Seq::<ProxyToken>::empty());
        }
        while j < n
            invariant
                n == items@.len(),
                0 <= j <= n,
                self.wf(),
                self.tokens@ == upsert_all(old(self).tokens@, items@.take(j as int)),
                self.current_index == old(self).current_index,
                self.last_used == old(self).last_used,
                self.pinned == old(self).pinned,
                ids_unique(old(self).tokens@),
            decreases n - j,
        {
            let t = (&items[j]).clone();
            proof {
                lemma_upsert_all_props(old(self).tokens@, items@.take(j as int));
            }
            match find_index(&self.tokens, &t.account_id) {
                Some(i) => {
                    proof {
                        lemma_index_of_id(self.tokens@, t.account_id@, i as int);
                    }
                    self.tokens[i] = t;
                },
                None => {
                    self.tokens.push(t);
                },
            }
            proof {
                lemma_upsert_props(upsert_all(old(self).tokens@, items@.take(j as int)), items@[j as int]);
                assert(items@.take(j + 1).drop_last() =~= items@.take(j as int));
                assert(items@.take(j + 1).last() == items@[j as int]);
                assert(self.tokens@ =~= upsert_all(old(self).tokens@, items@.take(j + 1)));
            }
            j += 1;
        }
        proof {
            assert(items@.take(n as int) =~= items@);
        }
    }

    /// Fills the pool from a batch of freshly parsed records, as the startup
    /// scan does. Entries with a known id replace the old record; the count
    /// reported is the batch size, as each one names a loaded file.
    pub fn load_accounts(&mut self, loaded: Vec<ProxyToken>) -> (count: usize)
        requires
            old(self).wf(),
        ensures
            final(self).wf(),
            final(self).tokens@ == upsert_all(old(self).tokens@, loaded@),
            count == loaded@.len(),
            final(self).current_index == old(self).current_index,
            final(self).last_used == old(self).last_used,
            final(self).pinned == old(self).pinned,
            forall|id: Seq<char>| #[trigger]
                has_id(final(self).tokens@, id) <==> (has_id(old(self).tokens@, id) || has_id(
                    loaded@,
                    id,
                )),
    {
        let count = loaded.len();
        self.upsert_entries(&loaded);
        proof {
            lemma_upsert_all_props(old(self).tokens@, loaded@);
        }
        count
    }

    /// Incremental sync against a fresh scan: entries whose id vanished are
    /// pruned, every candidate is upserted, and a sticky or pinned reference
    /// to a pruned id is cleared. Afterwards both references are valid and
    /// the pool holds exactly the candidate ids.
    pub fn reload_accounts(&mut self, candidates: Vec<ProxyToken>) -> (count: usize)
        requires
            old(self).wf(),
        ensures
            final(self).wf(),
            final(self).tokens@ == upsert_all(
                prune(old(self).tokens@, candidates@),
                candidates@,
            ),
            forall|id: Seq<char>| #[trigger]
                has_id(final(self).tokens@, id) <==> has_id(candidates@, id),
            count == final(self).tokens@.len(),
            final(self).current_index == old(self).current_index,
            final(self).last_used == (match old(self).last_used {
                Some((id, t)) => if has_id(candidates@, id@) {
                    Some((id, t))
                } else {
                    None
                },
                None => None,
            }),
            final(self).pinned == (match old(self).pinned {
                Some(id) => if has_id(candidates@, id@) {
                    Some(id)
                } else {
                    None
                },
                None => None,
            }),
            references_valid(*final(self)),
    {
        let n = self.tokens.len();
        let mut kept: Vec<ProxyToken> = Vec::new();
        let mut i: usize = 0;
        proof {
            assert(self.tokens@.take(0) =~= Seq::<ProxyToken>::empty());
        }
        while i < n
            invariant
                n == self.tokens@.len(),
                0 <= i <= n,
                *self == *old(self),
                kept@ == prune(self.tokens@.take(i as int), candidates@),
            decreases n - i,
        {
            let present = match find_index(&candidates, &self.tokens[i].account_id) {
                Some(_) => true,
                None => false,
            };
            if present {
                kept.push((&self.tokens[i]).clone());
            }
            proof {
                assert(self.tokens@.take(i + 1).drop_last() =~= self.tokens@.take(i as int));
                assert(self.tokens@.take(i + 1).last() == self.tokens@[i as int]);
            }
            i += 1;
        }
        proof {
            assert(self.tokens@.take(n as int) =~= self.tokens@);
            lemma_prune_props(old(self).tokens@, candidates@);
        }
        self.tokens = kept;
        self.upsert_entries(&candidates);
        proof {
            lemma_upsert_all_props(prune(old(self).tokens@, candidates@), candidates@);
            assert forall|id: Seq<char>| #[trigger] has_id(self.tokens@, id) <==> has_id(
                candidates@,
                id,
            ) by {
                assert(has_id(self.tokens@, id) == has_id(
                    upsert_all(prune(old(self).tokens@, candidates@), candidates@),
                    id,
                ));
            }
        }
        let mut lu_stale: bool = false;
        match &self.last_used {
            Some((id, _)) => {
                match find_index(&self.tokens, id) {
                    Some(i) => {
                        proof {
                            assert(self.tokens@[i as int].account_id@ == id@);
                            assert(has_id(self.tokens@, id@));
                        }
                    },
                    None => {
                        lu_stale = true;
                    },
                }
            },
            None => {},
        }
        if lu_stale {
            self.last_used = None;
        }
        let mut pin_stale: bool = false;
        match &self.pinned {
            Some(id) => {
                match find_index(&self.tokens, id) {
                    Some(i) => {
                        proof {
                            assert(self.tokens@[i as int].account_id@ == id@);
                            assert(has_id(self.tokens@, id@));
                        }
                    },
                    None => {
                        pin_stale = true;
                    },
                }
            },
            None => {},
        }
        if pin_stale {
            self.pinned = None;
        }
        self.tokens.len()
    }
}

} // verus!
