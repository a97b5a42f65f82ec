//! A load balancer over a fixed list of remote servers. A background refresh
//! records which remotes answered; a request tries the remotes that answered
//! last time first, then the others, each group in list order, and forwards
//! the first response that succeeds.

use vstd::prelude::*;
use vstd::string::*;

verus! {

/// A remote server: its address and whether it answered the last probe.
pub struct RemoteStatus {
    pub address: String,
    pub alive: bool,
}

/// A remote, as values.
pub struct RemoteView {
    pub address: Seq<char>,
    pub alive: bool,
}

impl View for RemoteStatus {
    type V = RemoteView;

    open spec fn view(&self) -> RemoteView {
        RemoteView { address: self.address@, alive: self.alive }
    }
}

/// The views of a list of remotes.
pub open spec fn remote_views(v: Seq<RemoteStatus>) -> Seq<RemoteView> {
    v.map_values(|r: RemoteStatus| r@)
}

/// A probe or a forwarded request succeeds when the remote answers `200 OK`.
pub fn is_success_status(status: u16) -> (r: bool)
    ensures
        r == (status == 200),
{
    status == 200
}

/// Records the outcome of a probe of every remote: each is alive exactly when
/// it answered. Addresses do not change.
pub fn refresh(remotes: &mut Vec<RemoteStatus>, answered: &Vec<bool>)
    requires
        old(remotes)@.len() == answered@.len(),
    ensures
        final(remotes)@.len() == old(remotes)@.len(),
        forall|i: int|
            0 <= i < final(remotes)@.len() ==> (#[trigger] final(remotes)@[i])@ == (RemoteView {
                address: old(remotes)@[i].address@,
                alive: answered@[i],
            }),
{
    let ghost start = remotes@;
    let n = remotes.len();
    let mut i: usize = 0;
    while i < n
        invariant
            i <= n,
            n == remotes@.len(),
            n == start.len(),
            n == answered@.len(),
            forall|j: int|
                0 <= j < i ==> (#[trigger] remotes@[j])@ == (RemoteView {
                    address: start[j].address@,
                    alive: answered@[j],
                }),
            forall|j: int| i <= j < n ==> #[trigger] remotes@[j] == start[j],
        decreases n - i,
    {
        let address = remotes[i].address.clone();
        remotes.set(i, RemoteStatus { address, alive: answered[i] });
        i = i + 1;
    }
}

/// The indices `k < n` of the remotes whose `alive` flag is `alive`, ascending.
pub open spec fn indices_with(s: Seq<RemoteView>, alive: bool, n: nat) -> Seq<usize>
    decreases n,
{
    if n == 0 {
        Seq::empty()
    } else {
        let prev = indices_with(s, alive, (n - 1) as nat);
        if s[n - 1].alive == alive {
            prev.push((n - 1) as usize)
        } else {
            prev
        }
    }
}

/// The order in which a request tries the remotes: the live ones, then the
/// others, each in list order.
pub open spec fn try_order_spec(s: Seq<RemoteView>) -> Seq<usize> {
    indices_with(s, true, s.len()) + indices_with(s, false, s.len())
}

fn collect_indices(remotes: &Vec<RemoteStatus>, alive: bool, out: &mut Vec<usize>)
    ensures
        final(out)@ == old(out)@ + indices_with(remote_views(remotes@), alive, remotes@.len()),
{
    let ghost start = out@;
    let ghost s = remote_views(remotes@);
    let mut i: usize = 0;
    while i < remotes.len()
        invariant
            i <= remotes@.len(),
            s == remote_views(remotes@),
            out@ == start + indices_with(s, alive, i as nat),
        decreases remotes.len() - i,
    {
        assert(s[i as int] == remotes@[i as int]@);
        if remotes[i].alive == alive {
            out.push(i);
            assert(start + indices_with(s, alive, (i + 1) as nat) =~= (start + indices_with(
                s,
                alive,
                i as nat,
            )).push(i));
        }
        i = i + 1;
    }
}

/// The indices of the remotes in the order a request tries them.
pub fn try_order(remotes: &Vec<RemoteStatus>) -> (r: Vec<usize>)
    ensures
        r@ == try_order_spec(remote_views(remotes@)),
{
    let mut r: Vec<usize> = Vec::new();
    collect_indices(remotes, true, &mut r);
    collect_indices(remotes, false, &mut r);
    assert(r@ =~= try_order_spec(remote_views(remotes@)));
    r
}

/// Whether a header of the chosen remote's response is forwarded: all but
/// `transfer-encoding` (header names are lower case).
pub fn forwards_header(name: &str) -> (r: bool)
    ensures
        r == (name@ != "transfer-encoding"@),
{
    let skipped = String::from_str("transfer-encoding");
    let given = String::from_str(name);
    !(given == skipped)
}

proof fn lemma_indices_with(s: Seq<RemoteView>, alive: bool, n: nat)
    requires
        n <= s.len(),
        n <= usize::MAX + 1,
    ensures
        forall|j: int|
            0 <= j < indices_with(s, alive, n).len() ==> (#[trigger] indices_with(s, alive, n)[j])
                < n && s[indices_with(s, alive, n)[j] as int].alive == alive,
        forall|i: int, j: int|
            0 <= i < j < indices_with(s, alive, n).len() ==> (#[trigger] indices_with(
                s,
                alive,
                n,
            )[i]) < (#[trigger] indices_with(s, alive, n)[j]),
        forall|k: int|
            0 <= k < n && (#[trigger] s[k]).alive == alive ==> indices_with(s, alive, n).contains(
                k as usize,
            ),
        indices_with(s, true, n).len() + indices_with(s, false, n).len() == n,
    decreases n,
{
    if n > 0 {
        lemma_indices_with(s, alive, (n - 1) as nat);
        let prev = indices_with(s, alive, (n - 1) as nat);
        let cur = indices_with(s, alive, n);
        if s[n - 1].alive == alive {
            assert(cur == prev.push((n - 1) as usize));
            assert forall|k: int| 0 <= k < n && (#[trigger] s[k]).alive == alive implies cur.contains(
                k as usize,
            ) by {
                if k == n - 1 {
                    assert(cur[prev.len() as int] == k as usize);
                } else {
                    let j = choose|j: int| 0 <= j < prev.len() && prev[j] == k as usize;
                    assert(cur[j] == prev[j]);
                }
            }
        } else {
            assert(cur == prev);
        }
        lemma_indices_with(s, !alive, (n - 1) as nat);
    }
}

/// Every remote is tried exactly once: the order has one entry per remote,
/// each names a remote, and no remote is named twice.
pub proof fn law_try_order_is_permutation(s: Seq<RemoteView>)
    requires
        s.len() <= usize::MAX,
    ensures
        try_order_spec(s).len() == s.len(),
        forall|j: int| 0 <= j < try_order_spec(s).len() ==> #[trigger] try_order_spec(s)[j] < s.len(),
        forall|i: int, j: int|
            0 <= i < j < try_order_spec(s).len() ==> #[trigger] try_order_spec(s)[i]
                != #[trigger] try_order_spec(s)[j],
        forall|k: usize| k < s.len() ==> #[trigger] try_order_spec(s).contains(k),
{
    let n = s.len();
    lemma_indices_with(s, true, n);
    lemma_indices_with(s, false, n);
    let a = indices_with(s, true, n);
    let d = indices_with(s, false, n);
    let o = try_order_spec(s);
    assert forall|j: int| 0 <= j < o.len() implies #[trigger] o[j] < s.len() by {
        if j < a.len() {
            assert(o[j] == a[j]);
        } else {
            assert(o[j] == d[j - a.len()]);
        }
    }
    assert forall|i: int, j: int| 0 <= i < j < o.len() implies #[trigger] o[i] != #[trigger] o[j] by {
        if j < a.len() {
            assert(o[i] == a[i] && o[j] == a[j]);
        } else if i >= a.len() {
            assert(o[i] == d[i - a.len()] && o[j] == d[j - a.len()]);
        } else {
            assert(o[i] == a[i] && o[j] == d[j - a.len()]);
            assert(s[a[i] as int].alive && !s[d[j - a.len()] as int].alive);
        }
    }
    assert forall|k: usize| k < s.len() implies #[trigger] o.contains(k) by {
        if s[k as int].alive {
            assert(a.contains(k));
            let j = choose|j: int| 0 <= j < a.len() && a[j] == k;
            assert(o[j] == a[j]);
        } else {
            assert(d.contains(k));
            let j = choose|j: int| 0 <= j < d.len() && d[j] == k;
            assert(o[a.len() + j] == d[j]);
        }
    }
}

/// Live remotes come first: every live remote is tried before every dead one, and within each group the list
/// order is kept.
pub proof fn law_live_remotes_first(s: Seq<RemoteView>)
    requires
        s.len() <= usize::MAX,
    ensures
        forall|i: int, j: int|
            0 <= i < j < try_order_spec(s).len() && s[#[trigger] try_order_spec(s)[j] as int].alive
                ==> s[#[trigger] try_order_spec(s)[i] as int].alive,
        forall|i: int, j: int|
            0 <= i < j < try_order_spec(s).len() && s[#[trigger] try_order_spec(s)[i] as int].alive
                == s[#[trigger] try_order_spec(s)[j] as int].alive ==> try_order_spec(s)[i]
                < try_order_spec(s)[j],
{
    let n = s.len();
    lemma_indices_with(s, true, n);
    lemma_indices_with(s, false, n);
    let a = indices_with(s, true, n);
    let d = indices_with(s, false, n);
    let o = try_order_spec(s);
    assert forall|i: int, j: int|
        0 <= i < j < o.len() && s[#[trigger] o[j] as int].alive implies s[#[trigger] o[i] as int].alive by {
        if j < a.len() {
            assert(o[i] == a[i] && o[j] == a[j]);
        } else {
            assert(o[j] == d[j - a.len()]);
        }
    }
    assert forall|i: int, j: int|
        0 <= i < j < o.len() && s[#[trigger] o[i] as int].alive == s[#[trigger] o[j] as int].alive
        implies o[i] < o[j] by {
        if j < a.len() {
            assert(o[i] == a[i] && o[j] == a[j]);
        } else if i >= a.len() {
            assert(o[i] == d[i - a.len()] && o[j] == d[j - a.len()]);
        } else {
            assert(o[i] == a[i] && o[j] == d[j - a.len()]);
        }
    }
}

/// What a request does next while it tries the remotes in `try_order`.
pub enum BalanceAction {
    /// Ask the remote with this index.
    Try(usize),
    /// Forward the response of the remote with this index, which succeeded.
    Forward(usize),
    /// No remote succeeded: answer `503 Service Unavailable`.
    Unavailable,
}

/// The next step after the first `tried` remotes of `order` were asked, the
/// last of them with outcome `last_ok`: the first success is forwarded.
pub open spec fn balance_action(order: Seq<usize>, tried: int, last_ok: bool) -> BalanceAction {
    if tried > 0 && last_ok {
        BalanceAction::Forward(order[tried - 1])
    } else if tried < order.len() {
        BalanceAction::Try(order[tried])
    } else {
        BalanceAction::Unavailable
    }
}

/// Decides the next step of a request: forward the response that just
/// succeeded, else ask the next remote in order, else give up.
pub fn next_balance_action(order: &Vec<usize>, tried: usize, last_ok: bool) -> (r: BalanceAction)
    requires
        tried <= order@.len(),
    ensures
        r == balance_action(order@, tried as int, last_ok),
{
    if tried > 0 && last_ok {
        BalanceAction::Forward(order[tried - 1])
    } else if tried < order.len() {
        BalanceAction::Try(order[tried])
    } else {
        BalanceAction::Unavailable
    }
}

/// The outcome of the last of the first `tried` attempts (none when nothing
/// was tried yet).
pub open spec fn last_outcome(ok: Seq<bool>, tried: int) -> bool {
    tried > 0 && ok[tried - 1]
}

/// The first remote to succeed wins: when the remotes before the `j`-th of
/// the order failed and the `j`-th succeeds, the request asks them in order
/// and then forwards the `j`-th one's response.
pub proof fn law_first_success_wins(order: Seq<usize>, ok: Seq<bool>, j: int)
    requires
        ok.len() == order.len(),
        0 <= j < order.len(),
        forall|k: int| 0 <= k < j ==> !ok[k],
        ok[j],
    ensures
        forall|k: int| 0 <= k <= j ==> #[trigger] balance_action(order, k, last_outcome(ok, k))
            == BalanceAction::Try(order[k]),
        balance_action(order, j + 1, ok[j]) == BalanceAction::Forward(order[j]),
{
}

/// When no remote succeeds, the request asks every one of them in order and
/// then answers `503 Service Unavailable`.
pub proof fn law_unavailable_when_none_succeeds(order: Seq<usize>, ok: Seq<bool>)
    requires
        ok.len() == order.len(),
        forall|k: int| 0 <= k < order.len() ==> !ok[k],
    ensures
        forall|k: int| 0 <= k < order.len() ==> #[trigger] balance_action(order, k, last_outcome(ok, k))
            == BalanceAction::Try(order[k]),
        balance_action(order, order.len() as int, last_outcome(ok, order.len() as int))
            == BalanceAction::Unavailable,
{
}

} // verus!
