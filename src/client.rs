//! Directory of live connections, keyed by connection id.

use vstd::prelude::*;
use vstd::string::*;
use crate::text::text_eq;

verus! {

/// A connected client. `connected` is false once its outbound channel has
/// been let go; such a client receives nothing.
#[derive(Debug, Clone)]
pub struct Client {
    pub id: String,
    pub username: String,
    pub connected: bool,
}

impl Client {
    /// A connected client.
    pub fn new(id: &str, username: &str) -> (r: Self)
        ensures
            r.id@ == id@,
            r.username@ == username@,
            r.connected,
    {
        Client { id: id.to_owned(), username: username.to_owned(), connected: true }
    }

    /// Lets go of the client's outbound channel.
    pub fn disconnect(&mut self)
        ensures
            final(self).id == old(self).id,
            final(self).username == old(self).username,
            !final(self).connected,
    {
        self.connected = false;
    }
}

/// What the registry holds for one key.
pub struct Entry {
    pub key: Seq<char>,
    pub id: Seq<char>,
    pub username: Seq<char>,
    pub connected: bool,
}

pub open spec fn entry_of(key: String, c: Client) -> Entry {
    Entry { key: key@, id: c.id@, username: c.username@, connected: c.connected }
}

/// No key occurs twice.
pub open spec fn keys_unique(s: Seq<Entry>) -> bool {
    forall|i: int, j: int| 0 <= i < j < s.len() ==> #[trigger] s[i].key != #[trigger] s[j].key
}

/// The keys, in order.
pub open spec fn keys(s: Seq<Entry>) -> Seq<Seq<char>> {
    s.map_values(|e: Entry| e.key)
}

/// Keys of the connected entries other than `exclude`, in registry order:
/// who a broadcast reaches.
pub open spec fn recipients(s: Seq<Entry>, exclude: Option<Seq<char>>) -> Seq<Seq<char>>
    decreases s.len(),
{
    if s.len() == 0 {
        Seq::empty()
    } else {
        let rest = recipients(s.drop_last(), exclude);
        if s.last().connected && exclude != Some(s.last().key) {
            rest.push(s.last().key)
        } else {
            rest
        }
    }
}

/// The registry with the entry under `key` no longer connected.
pub open spec fn without_channel(s: Seq<Entry>, key: Seq<char>) -> Seq<Entry> {
    s.map_values(|e: Entry| if e.key == key { Entry { connected: false, ..e } } else { e })
}

/// The registry after `key` is set to `e`: replaced in place, or appended.
pub open spec fn put(s: Seq<Entry>, e: Entry) -> Seq<Entry> {
    if exists|i: int| 0 <= i < s.len() && s[i].key == e.key {
        s.update(choose|i: int| 0 <= i < s.len() && s[i].key == e.key, e)
    } else {
        s.push(e)
    }
}

/// The registry without the entry under `key`.
pub open spec fn drop_key(s: Seq<Entry>, key: Seq<char>) -> Seq<Entry>
    decreases s.len(),
{
    if s.len() == 0 {
        s
    } else if s.last().key == key {
        drop_key(s.drop_last(), key)
    } else {
        drop_key(s.drop_last(), key).push(s.last())
    }
}

/// The live connections, each under the key it was added with.
pub struct Clients {
    entries: Vec<(String, Client)>,
}

impl View for Clients {
    type V = Seq<Entry>;

    closed spec fn view(&self) -> Seq<Entry> {
        self.entries@.map_values(|p: (String, Client)| entry_of(p.0, p.1))
    }
}

impl Clients {
    pub open spec fn wf(&self) -> bool {
        keys_unique(self@)
    }

    /// An empty registry.
    pub fn new() -> (r: Self)
        ensures
            r.wf(),
            r@ == Seq::<Entry>::empty(),
    {
        let r = Clients { entries: Vec::new() };
        proof {
            assert(r@ =~= Seq::<Entry>::empty());
        }
        r
    }

    /// Index of the entry under `key`.
    fn find(&self, key: &str) -> (r: Option<usize>)
        requires
            self.wf(),
        ensures
            r matches Some(i) ==> i < self@.len() && self@[i as int].key == key@,
            r is None ==> forall|i: int| 0 <= i < self@.len() ==> self@[i].key != key@,
    {
        let mut i: usize = 0;
        while i < self.entries.len()
            invariant
                0 <= i <= self.entries@.len(),
                self@.len() == self.entries@.len(),
                forall|j: int| 0 <= j < i ==> self@[j].key != key@,
            decreases self.entries@.len() - i,
        {
            if text_eq(self.entries[i].0.as_str(), key) {
                return Some(i);
            }
            i += 1;
        }
        None
    }
}

/// Registers `client` under `id`, replacing whatever was registered there.
pub fn add_client(clients: &mut Clients, id: String, client: Client)
    requires
        old(clients).wf(),
    ensures
        final(clients).wf(),
        final(clients)@ == put(old(clients)@, entry_of(id, client)),
{
    let ghost e = entry_of(id, client);
    let ghost s = clients@;
    match clients.find(id.as_str()) {
        Some(i) => {
            clients.entries.set(i, (id, client));
            proof {
                assert(clients@ =~= s.update(i as int, e));
                let k = choose|k: int| 0 <= k < s.len() && s[k].key == e.key;
                assert(k == i);
            }
        },
        None => {
            clients.entries.push((id, client));
            proof {
                assert(clients@ =~= s.push(e));
            }
        },
    }
}

/// Forgets the client under `id`; nothing happens when there is none.
pub fn remove_client(clients: &mut Clients, id: &str)
    requires
        old(clients).wf(),
    ensures
        final(clients).wf(),
        final(clients)@ == drop_key(old(clients)@, id@),
{
    let ghost s = clients@;
    match clients.find(id) {
        Some(i) => {
            clients.entries.remove(i);
            proof {
                assert(clients@ =~= s.remove(i as int));
                lemma_drop_unique(s, i as int);
            }
        },
        None => {
            proof {
                lemma_drop_absent(s, id@);
            }
        },
    }
}

proof fn lemma_drop_unique(s: Seq<Entry>, i: int)
    requires
        keys_unique(s),
        0 <= i < s.len(),
    ensures
        drop_key(s, s[i].key) == s.remove(i),
        keys_unique(s.remove(i)),
    decreases s.len(),
{
    let key = s[i].key;
    let init = s.drop_last();
    if i == s.len() - 1 {
        assert forall|j: int| 0 <= j < init.len() implies init[j].key != key by {
            assert(s[j].key != s[i].key);
        }
        lemma_drop_absent(init, key);
        assert(s.remove(i) =~= init);
    } else {
        assert(s.last().key != key);
        lemma_drop_unique(init, i);
        assert(s.remove(i) =~= init.remove(i).push(s.last()));
    }
    assert forall|a: int, b: int| 0 <= a < b < s.remove(i).len() implies
        #[trigger] s.remove(i)[a].key != #[trigger] s.remove(i)[b].key by {
        let a1 = if a < i { a } else { a + 1 };
        let b1 = if b < i { b } else { b + 1 };
        assert(s.remove(i)[a] == s[a1]);
        assert(s.remove(i)[b] == s[b1]);
    }
}

proof fn lemma_drop_absent(s: Seq<Entry>, key: Seq<char>)
    requires
        forall|j: int| 0 <= j < s.len() ==> s[j].key != key,
    ensures
        drop_key(s, key) == s,
    decreases s.len(),
{
    if s.len() > 0 {
        lemma_drop_absent(s.drop_last(), key);
        assert(s.drop_last().push(s.last()) =~= s);
    }
}

/// A message and the keys of the connections it goes to.
#[derive(Debug)]
pub struct Outgoing {
    pub recipients: Vec<String>,
    pub text: String,
}

pub open spec fn views(v: Seq<String>) -> Seq<Seq<char>> {
    v.map_values(|s: String| s@)
}

pub open spec fn opt_view(o: Option<&str>) -> Option<Seq<char>> {
    match o {
        Some(s) => Some(s@),
        None => None,
    }
}

/// The keys of every connected client but `exclude`, in registry order.
fn recipients_of(clients: &Clients, exclude: Option<&str>) -> (r: Vec<String>)
    ensures
        views(r@) == recipients(clients@, opt_view(exclude)),
{
    let mut out: Vec<String> = Vec::new();
    let mut i: usize = 0;
    let ghost s = clients@;
    while i < clients.entries.len()
        invariant
            s == clients@,
            0 <= i <= clients.entries@.len(),
            s.len() == clients.entries@.len(),
            views(out@) == recipients(s.subrange(0, i as int), opt_view(exclude)),
        decreases clients.entries@.len() - i,
    {
        let ghost prev = out@;
        let (key, client) = &clients.entries[i];
        let wanted = client.connected && match exclude {
            Some(e) => !text_eq(key.as_str(), e),
            None => true,
        };
        if wanted {
            out.push(key.clone());
        }
        proof {
            let sub = s.subrange(0, i + 1);
            assert(sub.drop_last() =~= s.subrange(0, i as int));
            assert(sub.last() == s[i as int]);
            if wanted {
                assert(views(out@) =~= views(prev).push(key@));
            } else {
                assert(views(out@) =~= views(prev));
            }
        }
        i += 1;
    }
    proof {
        assert(s.subrange(0, s.len() as int) =~= s);
    }
    out
}

/// The keys of every connected client but the one under `exclude`.
pub(crate) fn recipients_of_key(clients: &Clients, exclude: &str) -> (r: Vec<String>)
    ensures
        views(r@) == recipients(clients@, Some(exclude@)),
{
    recipients_of(clients, Some(exclude))
}

/// Sends `message` to every connected client but `exclude`; the outgoing
/// message names who it goes to.
pub fn broadcast_message(clients: &Clients, message: &str, exclude: Option<&str>) -> (r: Outgoing)
    ensures
        views(r.recipients@) == recipients(clients@, opt_view(exclude)),
        r.text@ == message@,
{
    Outgoing { recipients: recipients_of(clients, exclude), text: message.to_owned() }
}

/// Sends `message` to every connected client, prefixed with who says it.
pub fn broadcast_personalized_message(clients: &Clients, message: &str, sender_username: &str) -> (r: Outgoing)
    ensures
        views(r.recipients@) == recipients(clients@, None),
        r.text@ == sender_username@ + " says: "@ + message@,
{
    let mut text = sender_username.to_owned();
    text.append(" says: ");
    text.append(message);
    Outgoing { recipients: recipients_of(clients, None), text }
}

/// How many clients are registered.
pub fn get_client_count(clients: &Clients) -> (r: usize)
    ensures
        r == clients@.len(),
{
    clients.entries.len()
}

/// The id and username of every registered client, in registry order.
pub fn list_clients(clients: &Clients) -> (r: Vec<(String, String)>)
    ensures
        r@.len() == clients@.len(),
        forall|i: int| 0 <= i < r@.len() ==> r@[i].0@ == (#[trigger] clients@[i]).id && r@[i].1@ == clients@[i].username,
{
    let mut out: Vec<(String, String)> = Vec::new();
    let mut i: usize = 0;
    while i < clients.entries.len()
        invariant
            0 <= i <= clients.entries@.len(),
            clients@.len() == clients.entries@.len(),
            out@.len() == i,
            forall|j: int| 0 <= j < i ==> out@[j].0@ == (#[trigger] clients@[j]).id && out@[j].1@ == clients@[j].username,
        decreases clients.entries@.len() - i,
    {
        let c = &clients.entries[i].1;
        out.push((c.id.clone(), c.username.clone()));
        i += 1;
    }
    out
}

/// The client registered under `id`.
pub fn get_client_by_id<'a>(clients: &'a Clients, id: &str) -> (r: Option<&'a Client>)
    requires
        clients.wf(),
    ensures
        r is None <==> !keys(clients@).contains(id@),
        r matches Some(c) ==> exists|i: int| 0 <= i < clients@.len() && clients@[i].key == id@
            && (#[trigger] clients@[i]).id == c.id@ && clients@[i].username == c.username@
            && clients@[i].connected == c.connected,
{
    match clients.find(id) {
        Some(i) => {
            proof {
                assert(keys(clients@)[i as int] == id@);
            }
            Some(&clients.entries[i].1)
        },
        None => {
            proof {
                if keys(clients@).contains(id@) {
                    let j = choose|j: int| 0 <= j < keys(clients@).len() && keys(clients@)[j] == id@;
                    assert(clients@[j].key == id@);
                }
            }
            None
        },
    }
}

/// A key is among the recipients exactly when it names a connected entry and
/// is not excluded.
proof fn lemma_recipients_contains(s: Seq<Entry>, exclude: Option<Seq<char>>, k: Seq<char>)
    ensures
        recipients(s, exclude).contains(k) <==> (exclude != Some(k)
            && exists|i: int| 0 <= i < s.len() && s[i].key == k && s[i].connected),
    decreases s.len(),
{
    if s.len() > 0 {
        let init = s.drop_last();
        lemma_recipients_contains(init, exclude, k);
        let rest = recipients(init, exclude);
        if recipients(s, exclude).contains(k) {
            if s.last().connected && exclude != Some(s.last().key) {
                let j = choose|j: int| 0 <= j < rest.push(s.last().key).len() && rest.push(s.last().key)[j] == k;
                if j < rest.len() {
                    assert(rest.contains(k));
                    let i = choose|i: int| 0 <= i < init.len() && init[i].key == k && init[i].connected;
                    assert(s[i] == init[i]);
                } else {
                    assert(s[s.len() - 1].key == k);
                }
            } else {
                let i = choose|i: int| 0 <= i < init.len() && init[i].key == k && init[i].connected;
                assert(s[i] == init[i]);
            }
        }
        if exclude != Some(k) && exists|i: int| 0 <= i < s.len() && s[i].key == k && s[i].connected {
            let i = choose|i: int| 0 <= i < s.len() && s[i].key == k && s[i].connected;
            if i < s.len() - 1 {
                assert(init[i] == s[i]);
                assert(rest.contains(k));
                if s.last().connected && exclude != Some(s.last().key) {
                    let j = choose|j: int| 0 <= j < rest.len() && rest[j] == k;
                    assert(rest.push(s.last().key)[j] == k);
                }
            } else {
                assert(rest.push(s.last().key)[rest.len() as int] == k);
            }
        }
    }
}

/// A broadcast from connection `a` reaches every other connected client and
/// never `a` itself.
pub proof fn lemma_broadcast_exclusion(s: Seq<Entry>, a: Seq<char>)
    ensures
        !recipients(s, Some(a)).contains(a),
        forall|i: int| 0 <= i < s.len() && s[i].key != a && s[i].connected
            ==> recipients(s, Some(a)).contains(#[trigger] s[i].key),
{
    lemma_recipients_contains(s, Some(a), a);
    assert forall|i: int| 0 <= i < s.len() && s[i].key != a && s[i].connected
        implies recipients(s, Some(a)).contains(#[trigger] s[i].key) by {
        lemma_recipients_contains(s, Some(a), s[i].key);
    }
}

/// A connection whose channel is gone does not hold back the others: with
/// `b` disconnected a broadcast reaches every other key exactly as before,
/// and not `b`.
pub proof fn lemma_partial_failure_isolation(s: Seq<Entry>, exclude: Option<Seq<char>>, b: Seq<char>)
    ensures
        !recipients(without_channel(s, b), exclude).contains(b),
        forall|k: Seq<char>| k != b ==> (#[trigger] recipients(without_channel(s, b), exclude).contains(k)
            <==> recipients(s, exclude).contains(k)),
{
    let t = without_channel(s, b);
    lemma_recipients_contains(t, exclude, b);
    if exists|i: int| 0 <= i < t.len() && t[i].key == b && t[i].connected {
        let i = choose|i: int| 0 <= i < t.len() && t[i].key == b && t[i].connected;
        assert(!t[i].connected);
    }
    assert forall|k: Seq<char>| k != b implies (#[trigger] recipients(t, exclude).contains(k)
        <==> recipients(s, exclude).contains(k)) by {
        lemma_recipients_contains(t, exclude, k);
        lemma_recipients_contains(s, exclude, k);
        if exists|i: int| 0 <= i < t.len() && t[i].key == k && t[i].connected {
            let i = choose|i: int| 0 <= i < t.len() && t[i].key == k && t[i].connected;
            assert(s[i].key == k && s[i].connected);
        }
        if exists|i: int| 0 <= i < s.len() && s[i].key == k && s[i].connected {
            let i = choose|i: int| 0 <= i < s.len() && s[i].key == k && s[i].connected;
            assert(t[i].key == k && t[i].connected);
        }
    }
}

} // verus!
