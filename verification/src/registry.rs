use vstd::prelude::*;

verus! {

broadcast use vstd::seq_lib::lemma_seq_contains_after_push;

/// One open session channel: the connection it belongs to, the channel's
/// identity on that connection, and the token under which the surrounding
/// program keeps the outbound handle that writes to the channel.
#[derive(Clone, Copy, PartialEq, Eq, Structural, Debug)]
pub struct Entry {
    pub conn: u64,
    pub chan: u64,
    pub handle: u64,
}

/// Whether `e` registers the channel `chan` of connection `conn`.
pub open spec fn key_is(e: Entry, conn: u64, chan: u64) -> bool {
    e.conn == conn && e.chan == chan
}

/// Whether two entries register the same (connection, channel) pair.
pub open spec fn same_key(a: Entry, b: Entry) -> bool {
    a.conn == b.conn && a.chan == b.chan
}

/// No two entries register the same (connection, channel) pair.
pub open spec fn unique_keys(entries: Seq<Entry>) -> bool {
    forall|i: int, j: int|
        0 <= i < entries.len() && 0 <= j < entries.len() && i != j
            ==> !same_key(#[trigger] entries[i], #[trigger] entries[j])
}

/// Whether some entry registers the channel `chan` of connection `conn`.
pub open spec fn contains_key(entries: Seq<Entry>, conn: u64, chan: u64) -> bool {
    exists|i: int| 0 <= i < entries.len() && key_is(#[trigger] entries[i], conn, chan)
}

/// Whether a broadcast that excludes the connection `exclude` (when it
/// excludes any) still reaches the entry `e`.
pub open spec fn selected(e: Entry, exclude: Option<u64>) -> bool {
    match exclude {
        Some(conn) => e.conn != conn,
        None => true,
    }
}

/// The entries a broadcast writes to, in registry order: those that the
/// exclusion admits.
pub open spec fn select(entries: Seq<Entry>, exclude: Option<u64>) -> Seq<Entry>
    decreases entries.len(),
{
    if entries.len() == 0 {
        Seq::empty()
    } else {
        let rest = select(entries.drop_last(), exclude);
        if selected(entries.last(), exclude) {
            rest.push(entries.last())
        } else {
            rest
        }
    }
}

/// How many entries of `entries` register the channel `chan` of
/// connection `conn`.
pub open spec fn count_key(entries: Seq<Entry>, conn: u64, chan: u64) -> nat
    decreases entries.len(),
{
    if entries.len() == 0 {
        0
    } else {
        count_key(entries.drop_last(), conn, chan) + if key_is(
            entries.last(),
            conn,
            chan,
        ) {
            1nat
        } else {
            0nat
        }
    }
}

proof fn lemma_count_key_push(s: Seq<Entry>, x: Entry, conn: u64, chan: u64)
    ensures
        count_key(s.push(x), conn, chan) == count_key(s, conn, chan) + if key_is(
            x,
            conn,
            chan,
        ) {
            1nat
        } else {
            0nat
        },
{
    assert(s.push(x).drop_last() =~= s);
    assert(s.push(x).last() == x);
}

proof fn lemma_unique_keys_drop_last(entries: Seq<Entry>)
    requires
        unique_keys(entries),
        entries.len() > 0,
    ensures
        unique_keys(entries.drop_last()),
{
    let rest = entries.drop_last();
    assert forall|i: int, j: int|
        0 <= i < rest.len() && 0 <= j < rest.len() && i != j implies !same_key(
        #[trigger] rest[i],
        #[trigger] rest[j],
    ) by {
        assert(rest[i] == entries[i]);
        assert(rest[j] == entries[j]);
    }
}

/// A broadcast's selection holds exactly the registered entries that the
/// exclusion admits: nothing is invented, and nothing admitted is dropped.
pub proof fn lemma_select_membership(entries: Seq<Entry>, exclude: Option<u64>, e: Entry)
    ensures
        select(entries, exclude).contains(e) <==> entries.contains(e) && selected(e, exclude),
    decreases entries.len(),
{
    if entries.len() == 0 {
    } else {
        let rest = entries.drop_last();
        let last = entries.last();
        lemma_select_membership(rest, exclude, e);
        if rest.contains(e) {
            let i = choose|i: int| 0 <= i < rest.len() && rest[i] == e;
            assert(entries[i] == e);
        }
        if entries.contains(e) {
            let i = choose|i: int| 0 <= i < entries.len() && entries[i] == e;
            if i < entries.len() - 1 {
                assert(rest[i] == e);
            }
        }
    }
}

/// When a broadcast excludes a connection, no selected entry belongs to
/// that connection: the sender of a disconnect is never written to.
pub proof fn lemma_select_excludes(entries: Seq<Entry>, excluded_conn: u64, e: Entry)
    requires
        select(entries, Some(excluded_conn)).contains(e),
    ensures
        e.conn != excluded_conn,
        entries.contains(e),
{
    lemma_select_membership(entries, Some(excluded_conn), e);
}

proof fn lemma_select_count_absent(entries: Seq<Entry>, exclude: Option<u64>, conn: u64, chan: u64)
    requires
        forall|k: int| 0 <= k < entries.len() ==> !key_is(#[trigger] entries[k], conn, chan),
    ensures
        count_key(select(entries, exclude), conn, chan) == 0,
    decreases entries.len(),
{
    if entries.len() == 0 {
    } else {
        let rest = entries.drop_last();
        let last = entries.last();
        assert forall|k: int| 0 <= k < rest.len() implies !key_is(
            #[trigger] rest[k],
            conn,
            chan,
        ) by {
            assert(rest[k] == entries[k]);
        }
        lemma_select_count_absent(rest, exclude, conn, chan);
        if selected(last, exclude) {
            assert(!key_is(entries[entries.len() - 1], conn, chan));
            lemma_count_key_push(select(rest, exclude), last, conn, chan);
        }
    }
}

/// A broadcast over a registry whose keys are unique reaches every admitted
/// channel exactly once: the selection holds exactly one entry with that
/// channel's key, so exactly one line is written to it.
pub proof fn lemma_select_exactly_once(entries: Seq<Entry>, exclude: Option<u64>, e: Entry)
    requires
        unique_keys(entries),
        entries.contains(e),
        selected(e, exclude),
    ensures
        count_key(select(entries, exclude), e.conn, e.chan) == 1,
    decreases entries.len(),
{
    let rest = entries.drop_last();
    let last = entries.last();
    lemma_unique_keys_drop_last(entries);
    let i = choose|i: int| 0 <= i < entries.len() && entries[i] == e;
    if same_key(e, last) {
        if i < entries.len() - 1 {
            assert(!same_key(entries[i], entries[entries.len() - 1]));
            assert(false);
        }
        assert(e == last);
        assert forall|k: int| 0 <= k < rest.len() implies !key_is(
            #[trigger] rest[k],
            e.conn,
            e.chan,
        ) by {
            assert(rest[k] == entries[k]);
            assert(!same_key(entries[k], entries[entries.len() - 1]));
        }
        lemma_select_count_absent(rest, exclude, e.conn, e.chan);
        lemma_count_key_push(select(rest, exclude), last, e.conn, e.chan);
    } else {
        assert(e != last);
        assert(i < entries.len() - 1);
        assert(rest[i] == e);
        assert(rest.contains(e));
        lemma_select_exactly_once(rest, exclude, e);
        if selected(last, exclude) {
            lemma_count_key_push(select(rest, exclude), last, e.conn, e.chan);
            assert(!key_is(last, e.conn, e.chan));
        }
    }
}

/// The shared registry of open session channels: the process-wide mapping
/// from (connection, channel) to the outbound handle's token, which every
/// broadcast iterates.
pub struct Registry {
    entries: Vec<Entry>,
}

impl View for Registry {
    type V = Seq<Entry>;

    closed spec fn view(&self) -> Seq<Entry> {
        self.entries@
    }
}

impl Registry {
    /// A registry is well formed when no two of its entries register the
    /// same (connection, channel) pair.
    pub open spec fn wf(&self) -> bool {
        unique_keys(self@)
    }

    /// The empty registry a freshly started server begins with.
    pub fn new() -> (r: Registry)
        ensures
            r@ == Seq::<Entry>::empty(),
            r.wf(),
    {
        Registry { entries: Vec::new() }
    }

    /// How many channels are registered.
    pub fn len(&self) -> (n: usize)
        ensures
            n == self@.len(),
    {
        self.entries.len()
    }

    fn find(&self, conn: u64, chan: u64) -> (r: Option<usize>)
        ensures
            match r {
                Some(i) => i < self@.len() && key_is(self@[i as int], conn, chan),
                None => !contains_key(self@, conn, chan),
            },
    {
        let n = self.entries.len();
        let mut i: usize = 0;
        while i < n
            invariant
                n == self@.len(),
                i <= n,
                forall|k: int| 0 <= k < i ==> !key_is(#[trigger] self@[k], conn, chan),
            decreases n - i,
        {
            let e = self.entries[i];
            if e.conn == conn && e.chan == chan {
                return Some(i);
            }
            i = i + 1;
        }
        None
    }

    /// Registers the channel `chan` of connection `conn` under the handle
    /// token `handle`, replacing any entry that already carried that key.
    pub fn insert(&mut self, conn: u64, chan: u64, handle: u64)
        requires
            old(self).wf(),
        ensures
            final(self).wf(),
            forall|e: Entry| #[trigger]
                final(self)@.contains(e) <==> (old(self)@.contains(e) && !key_is(e, conn, chan))
                    || e == (Entry { conn, chan, handle }),
    {
        let new_entry = Entry { conn, chan, handle };
        let ghost s0 = self@;
        match self.find(conn, chan) {
            Some(i) => {
                self.entries.remove(i);
                let ghost s1 = self@;
                self.entries.push(new_entry);
                proof {
                    s0.remove_ensures(i as int);
                    assert(s1 == s0.remove(i as int));
                    assert forall|e: Entry| s1.contains(e) implies s0.contains(e) by {
                        let k = choose|k: int| 0 <= k < s1.len() && s1[k] == e;
                        if k < i {
                            assert(s0[k] == e);
                        } else {
                            assert(s0[k + 1] == e);
                        }
                    }
                    assert forall|e: Entry|
                        s0.contains(e) && !key_is(e, conn, chan) implies s1.contains(e) by {
                        let k = choose|k: int| 0 <= k < s0.len() && s0[k] == e;
                        if k < i {
                            assert(s1[k] == e);
                        } else {
                            assert(k != i);
                            assert(s1[k - 1] == e);
                        }
                    }
                    assert forall|k: int| 0 <= k < s1.len() implies !key_is(
                        #[trigger] s1[k],
                        conn,
                        chan,
                    ) by {
                        if k < i {
                            assert(s1[k] == s0[k]);
                            assert(!same_key(s0[k], s0[i as int]));
                        } else {
                            assert(s1[k] == s0[k + 1]);
                            assert(!same_key(s0[k + 1], s0[i as int]));
                        }
                    }
                    assert forall|k: int, l: int|
                        0 <= k < s1.len() && 0 <= l < s1.len() && k != l implies !same_key(
                        #[trigger] s1[k],
                        #[trigger] s1[l],
                    ) by {
                        let k0: int = if k < i { k } else { k + 1 };
                        let l0: int = if l < i { l } else { l + 1 };
                        assert(s1[k] == s0[k0]);
                        assert(s1[l] == s0[l0]);
                    }
                    assert forall|k: int, l: int|
                        0 <= k < self@.len() && 0 <= l < self@.len() && k != l implies !same_key(
                        #[trigger] self@[k],
                        #[trigger] self@[l],
                    ) by {
                        if k < s1.len() && l < s1.len() {
                        } else if k == s1.len() {
                            assert(self@[l] == s1[l]);
                            assert(!key_is(s1[l], conn, chan));
                        } else {
                            assert(self@[k] == s1[k]);
                            assert(!key_is(s1[k], conn, chan));
                        }
                    }
                }
            },
            None => {
                self.entries.push(new_entry);
                proof {
                    assert forall|k: int, l: int|
                        0 <= k < self@.len() && 0 <= l < self@.len() && k != l implies !same_key(
                        #[trigger] self@[k],
                        #[trigger] self@[l],
                    ) by {
                        if k < s0.len() && l < s0.len() {
                        } else if k == s0.len() {
                            assert(self@[l] == s0[l]);
                            assert(!key_is(s0[l], conn, chan));
                        } else {
                            assert(self@[k] == s0[k]);
                            assert(!key_is(s0[k], conn, chan));
                        }
                    }
                }
            },
        }
    }

    /// The snapshot of entries a broadcast writes to, in registry order:
    /// all of them, or all but those of the excluded connection.
    pub fn recipients(&self, exclude: Option<u64>) -> (r: Vec<Entry>)
        ensures
            r@ == select(self@, exclude),
    {
        let n = self.entries.len();
        let mut r: Vec<Entry> = Vec::new();
        let mut i: usize = 0;
        while i < n
            invariant
                n == self@.len(),
                i <= n,
                r@ == select(self@.take(i as int), exclude),
            decreases n - i,
        {
            let e = self.entries[i];
            let keep = match exclude {
                Some(conn) => e.conn != conn,
                None => true,
            };
            proof {
                lemma_select_take_step(self@, exclude, i as int);
            }
            if keep {
                r.push(e);
            }
            i = i + 1;
        }
        proof {
            assert(self@.take(n as int) =~= self@);
        }
        r
    }
}

proof fn lemma_select_take_step(entries: Seq<Entry>, exclude: Option<u64>, i: int)
    requires
        0 <= i < entries.len(),
    ensures
        select(entries.take(i + 1), exclude) == if selected(entries[i], exclude) {
            select(entries.take(i), exclude).push(entries[i])
        } else {
            select(entries.take(i), exclude)
        },
{
    assert(entries.take(i + 1).drop_last() =~= entries.take(i));
    assert(entries.take(i + 1).last() == entries[i]);
}

} // verus!
