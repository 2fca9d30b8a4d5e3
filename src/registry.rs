//! The identity registries: bots, workers, clients and projects, each kept in
//! registration order under unique ids, and worker heartbeats.
use vstd::prelude::*;
use crate::clock::{new_id, now_secs};
use crate::order::{arranged, rearranges, sorted_order, text_le};
use crate::text::{text_equals, text_views};

verus! {

broadcast use vstd::string::group_string_axioms;

/// A record registered under an id.
pub trait Identified: Sized + View {
    /// The record's id.
    spec fn key(&self) -> Seq<char>;

    /// A copy of the record.
    fn duplicate(&self) -> (r: Self)
        ensures
            r@ == self@,
    ;

    /// The record's id, as text.
    fn id_str(&self) -> (r: &str)
        ensures
            r@ == self.key(),
    ;
}

/// Some record in `s` has id `id`.
pub open spec fn key_taken<T: Identified>(s: Seq<T>, id: Seq<char>) -> bool {
    exists|i: int| 0 <= i < s.len() && #[trigger] s[i].key() == id
}

/// No two records in `s` share an id.
pub open spec fn keys_distinct<T: Identified>(s: Seq<T>) -> bool {
    forall|i: int, j: int|
        0 <= i < s.len() && 0 <= j < s.len() && #[trigger] s[i].key() == #[trigger] s[j].key() ==> i
            == j
}

/// The index of the record with id `id`, if any.
fn index_of<T: Identified>(v: &Vec<T>, id: &str) -> (r: Option<usize>)
    ensures
        match r {
            Some(i) => i < v@.len() && v@[i as int].key() == id@,
            None => !key_taken(v@, id@),
        },
{
    let n = v.len();
    let mut i: usize = 0;
    while i < n
        invariant
            n == v@.len(),
            0 <= i <= n,
            forall|j: int| 0 <= j < i ==> v@[j].key() != id@,
        decreases n - i,
    {
        if text_equals(v[i].id_str(), id) {
            return Some(i);
        }
        i += 1;
    }
    None
}

/// Adds `x` unless its id is taken.
fn insert_new<T: Identified>(v: &mut Vec<T>, x: T) -> (r: bool)
    requires
        keys_distinct(old(v)@),
    ensures
        keys_distinct(final(v)@),
        r == !key_taken(old(v)@, x.key()),
        final(v)@ == if r { old(v)@.push(x) } else { old(v)@ },
{
    if index_of(v, x.id_str()).is_some() {
        return false;
    }
    let ghost k = x.key();
    v.push(x);
    assert forall|i: int, j: int|
        0 <= i < v@.len() && 0 <= j < v@.len() && #[trigger] v@[i].key() == #[trigger] v@[j].key()
            implies i == j by {
        if i < old(v)@.len() && j == old(v)@.len() {
            assert(old(v)@[i].key() == k);
        }
        if j < old(v)@.len() && i == old(v)@.len() {
            assert(old(v)@[j].key() == k);
        }
    }
    true
}

/// Copies of all records, in order.
fn copy_all<T: Identified>(v: &Vec<T>) -> (r: Vec<T>)
    ensures
        views_of(r@) == views_of(v@),
{
    let n = v.len();
    let mut r: Vec<T> = Vec::new();
    let mut i: usize = 0;
    while i < n
        invariant
            n == v@.len(),
            0 <= i <= n,
            views_of(r@) == views_of(v@).subrange(0, i as int),
        decreases n - i,
    {
        let x = v[i].duplicate();
        let ghost before = r@;
        r.push(x);
        assert(views_of(r@) =~= views_of(before).push(v@[i as int]@));
        i += 1;
        assert(views_of(r@) =~= views_of(v@).subrange(0, i as int));
    }
    assert(views_of(v@).subrange(0, n as int) =~= views_of(v@));
    r
}

/// A copy of a list of texts.
pub fn copy_texts(v: &Vec<String>) -> (r: Vec<String>)
    ensures
        text_views(r@) == text_views(v@),
{
    let n = v.len();
    let mut r: Vec<String> = Vec::new();
    let mut i: usize = 0;
    while i < n
        invariant
            n == v@.len(),
            0 <= i <= n,
            text_views(r@) == text_views(v@).subrange(0, i as int),
        decreases n - i,
    {
        let ghost before = r@;
        r.push(v[i].clone());
        assert(text_views(r@) =~= text_views(before).push(v@[i as int]@));
        i += 1;
        assert(text_views(r@) =~= text_views(v@).subrange(0, i as int));
    }
    assert(text_views(v@).subrange(0, n as int) =~= text_views(v@));
    r
}

/// A bot that tasks can be assigned to.
#[derive(Debug)]
pub struct Bot {
    pub id: String,
    pub name: String,
    pub capabilities: Vec<String>,
}

/// A worker that pulls tasks, with the time of its last heartbeat.
#[derive(Debug)]
pub struct Worker {
    pub id: String,
    pub name: String,
    pub capabilities: Vec<String>,
    pub last_heartbeat: u64,
}

/// A client that projects are done for.
#[derive(Debug)]
pub struct Client {
    pub id: String,
    pub name: String,
    pub contact: String,
}

/// A project of a client.
#[derive(Debug)]
pub struct Project {
    pub id: String,
    pub client_id: String,
    pub name: String,
    pub description: String,
}

/// The view of a [`Bot`]: its texts as character sequences.
pub struct BotView {
    pub id: Seq<char>,
    pub name: Seq<char>,
    pub capabilities: Seq<Seq<char>>,
}

/// The view of a [`Worker`]: its texts as character sequences.
pub struct WorkerView {
    pub id: Seq<char>,
    pub name: Seq<char>,
    pub capabilities: Seq<Seq<char>>,
    pub last_heartbeat: u64,
}

/// The view of a [`Client`]: its texts as character sequences.
pub struct ClientView {
    pub id: Seq<char>,
    pub name: Seq<char>,
    pub contact: Seq<char>,
}

/// The view of a [`Project`]: its texts as character sequences.
pub struct ProjectView {
    pub id: Seq<char>,
    pub client_id: Seq<char>,
    pub name: Seq<char>,
    pub description: Seq<char>,
}

impl View for Bot {
    type V = BotView;

    open spec fn view(&self) -> BotView {
        BotView { id: self.id@, name: self.name@, capabilities: text_views(self.capabilities@) }
    }
}

impl View for Worker {
    type V = WorkerView;

    open spec fn view(&self) -> WorkerView {
        WorkerView {
            id: self.id@,
            name: self.name@,
            capabilities: text_views(self.capabilities@),
            last_heartbeat: self.last_heartbeat,
        }
    }
}

impl View for Client {
    type V = ClientView;

    open spec fn view(&self) -> ClientView {
        ClientView { id: self.id@, name: self.name@, contact: self.contact@ }
    }
}

impl View for Project {
    type V = ProjectView;

    open spec fn view(&self) -> ProjectView {
        ProjectView {
            id: self.id@,
            client_id: self.client_id@,
            name: self.name@,
            description: self.description@,
        }
    }
}

impl Identified for Bot {
    open spec fn key(&self) -> Seq<char> {
        self.id@
    }

    fn duplicate(&self) -> (r: Bot) {
        self.clone()
    }

    fn id_str(&self) -> (r: &str) {
        self.id.as_str()
    }
}

impl Identified for Worker {
    open spec fn key(&self) -> Seq<char> {
        self.id@
    }

    fn duplicate(&self) -> (r: Worker) {
        self.clone()
    }

    fn id_str(&self) -> (r: &str) {
        self.id.as_str()
    }
}

impl Identified for Client {
    open spec fn key(&self) -> Seq<char> {
        self.id@
    }

    fn duplicate(&self) -> (r: Client) {
        self.clone()
    }

    fn id_str(&self) -> (r: &str) {
        self.id.as_str()
    }
}

impl Identified for Project {
    open spec fn key(&self) -> Seq<char> {
        self.id@
    }

    fn duplicate(&self) -> (r: Project) {
        self.clone()
    }

    fn id_str(&self) -> (r: &str) {
        self.id.as_str()
    }
}

impl Clone for Bot {
    fn clone(&self) -> (r: Bot)
        ensures
            r@ == self@,
    {
        Bot { id: self.id.clone(), name: self.name.clone(), capabilities: copy_texts(&self.capabilities) }
    }
}

impl Clone for Worker {
    fn clone(&self) -> (r: Worker)
        ensures
            r@ == self@,
    {
        Worker {
            id: self.id.clone(),
            name: self.name.clone(),
            capabilities: copy_texts(&self.capabilities),
            last_heartbeat: self.last_heartbeat,
        }
    }
}

impl Clone for Client {
    fn clone(&self) -> (r: Client)
        ensures
            r@ == self@,
    {
        Client { id: self.id.clone(), name: self.name.clone(), contact: self.contact.clone() }
    }
}

impl Clone for Project {
    fn clone(&self) -> (r: Project)
        ensures
            r@ == self@,
    {
        Project {
            id: self.id.clone(),
            client_id: self.client_id.clone(),
            name: self.name.clone(),
            description: self.description.clone(),
        }
    }
}

/// The records of the registries, as views.
pub struct RegistryView {
    pub bots: Seq<BotView>,
    pub workers: Seq<WorkerView>,
    pub clients: Seq<ClientView>,
    pub projects: Seq<ProjectView>,
}

/// The registries of bots, workers, clients and projects.
pub struct Registry {
    bots: Vec<Bot>,
    workers: Vec<Worker>,
    clients: Vec<Client>,
    projects: Vec<Project>,
}

/// The views of a sequence of values.
pub open spec fn views_of<T: View>(s: Seq<T>) -> Seq<T::V> {
    s.map_values(|x: T| x@)
}

/// Some view in `s` has id `id`, as read by `key`.
pub open spec fn id_taken<V>(s: Seq<V>, key: spec_fn(V) -> Seq<char>, id: Seq<char>) -> bool {
    exists|i: int| 0 <= i < s.len() && #[trigger] key(s[i]) == id
}

/// The index of the view with id `id`, as read by `key` (meaningful when
/// [`id_taken`] holds).
pub open spec fn id_position<V>(s: Seq<V>, key: spec_fn(V) -> Seq<char>, id: Seq<char>) -> int {
    choose|i: int| 0 <= i < s.len() && #[trigger] key(s[i]) == id
}

/// The id of a bot view.
pub open spec fn bot_id(b: BotView) -> Seq<char> {
    b.id
}

/// The id of a worker view.
pub open spec fn worker_id(w: WorkerView) -> Seq<char> {
    w.id
}

/// The id of a client view.
pub open spec fn client_id(c: ClientView) -> Seq<char> {
    c.id
}

/// The id of a project view.
pub open spec fn project_id(p: ProjectView) -> Seq<char> {
    p.id
}

/// The registries after adding bot `b`.
pub open spec fn add_bot(v: RegistryView, b: BotView) -> RegistryView {
    RegistryView { bots: v.bots.push(b), ..v }
}

/// The registries after adding worker `w`.
pub open spec fn add_worker(v: RegistryView, w: WorkerView) -> RegistryView {
    RegistryView { workers: v.workers.push(w), ..v }
}

/// The registries after adding client `c`.
pub open spec fn add_client(v: RegistryView, c: ClientView) -> RegistryView {
    RegistryView { clients: v.clients.push(c), ..v }
}

/// The registries after adding project `p`.
pub open spec fn add_project(v: RegistryView, p: ProjectView) -> RegistryView {
    RegistryView { projects: v.projects.push(p), ..v }
}

/// The registries after worker `worker` (which must exist) beats at `now`.
pub open spec fn beat(v: RegistryView, worker: Seq<char>, now: u64) -> RegistryView {
    let i = id_position(v.workers, |w: WorkerView| worker_id(w), worker);
    RegistryView { workers: v.workers.update(i, WorkerView { last_heartbeat: now, ..v.workers[i] }), ..v }
}

/// `r` lists the clients of `s`, each once, in ascending order of name.
pub open spec fn clients_by_name(r: Seq<ClientView>, s: Seq<ClientView>) -> bool {
    &&& rearranges(r, s)
    &&& forall|i: int, j: int| 0 <= i < j < r.len() ==> text_le(#[trigger] r[i].name, #[trigger] r[j].name)
}

/// `r` lists the projects of `s`, each once, in ascending order of name.
pub open spec fn projects_by_name(r: Seq<ProjectView>, s: Seq<ProjectView>) -> bool {
    &&& rearranges(r, s)
    &&& forall|i: int, j: int| 0 <= i < j < r.len() ==> text_le(#[trigger] r[i].name, #[trigger] r[j].name)
}

/// An id is taken among records exactly when it is taken among their views.
proof fn lemma_taken<T: Identified + View>(s: Seq<T>, key: spec_fn(T::V) -> Seq<char>, id: Seq<char>)
    requires
        forall|i: int| 0 <= i < s.len() ==> key(#[trigger] s[i]@) == s[i].key(),
    ensures
        key_taken(s, id) == id_taken(views_of(s), key, id),
{
    if key_taken(s, id) {
        let i = choose|i: int| 0 <= i < s.len() && #[trigger] s[i].key() == id;
        assert(key(views_of(s)[i]) == id);
    }
    if id_taken(views_of(s), key, id) {
        let i = choose|i: int| 0 <= i < s.len() && #[trigger] key(views_of(s)[i]) == id;
        assert(s[i].key() == id);
    }
}

impl View for Registry {
    type V = RegistryView;

    closed spec fn view(&self) -> RegistryView {
        RegistryView {
            bots: views_of(self.bots@),
            workers: views_of(self.workers@),
            clients: views_of(self.clients@),
            projects: views_of(self.projects@),
        }
    }
}

impl Registry {
    /// Each registry's ids are unique.
    pub closed spec fn wf(&self) -> bool {
        &&& keys_distinct(self.bots@)
        &&& keys_distinct(self.workers@)
        &&& keys_distinct(self.clients@)
        &&& keys_distinct(self.projects@)
    }

    /// Empty registries.
    pub fn new() -> (r: Registry)
        ensures
            r.wf(),
            r@.bots.len() == 0,
            r@.workers.len() == 0,
            r@.clients.len() == 0,
            r@.projects.len() == 0,
    {
        Registry { bots: Vec::new(), workers: Vec::new(), clients: Vec::new(), projects: Vec::new() }
    }

    /// Registers a bot under `id`, unless a bot already has that id.
    pub fn register_bot_with_id(&mut self, id: String, name: String, capabilities: Vec<String>) -> (r: bool)
        requires
            old(self).wf(),
        ensures
            final(self).wf(),
            r == !id_taken(old(self)@.bots, |b: BotView| bot_id(b), id@),
            final(self)@ == if r {
                add_bot(old(self)@, BotView { id: id@, name: name@, capabilities: text_views(capabilities@) })
            } else {
                old(self)@
            },
    {
        let b = Bot { id, name, capabilities };
        let ghost old_bots = self.bots@;
        proof {
            lemma_taken(old_bots, |b: BotView| bot_id(b), b.key());
        }
        let r = insert_new(&mut self.bots, b);
        assert(views_of(old_bots.push(b)) =~= views_of(old_bots).push(b@));
        r
    }

    /// Registers a worker under `id` with its first heartbeat at `now`,
    /// unless a worker already has that id.
    pub fn register_worker_with_id(
        &mut self,
        id: String,
        name: String,
        capabilities: Vec<String>,
        now: u64,
    ) -> (r: bool)
        requires
            old(self).wf(),
        ensures
            final(self).wf(),
            r == !id_taken(old(self)@.workers, |w: WorkerView| worker_id(w), id@),
            final(self)@ == if r {
                add_worker(
                    old(self)@,
                    WorkerView { id: id@, name: name@, capabilities: text_views(capabilities@), last_heartbeat: now },
                )
            } else {
                old(self)@
            },
    {
        let w = Worker { id, name, capabilities, last_heartbeat: now };
        let ghost old_workers = self.workers@;
        proof {
            lemma_taken(old_workers, |w: WorkerView| worker_id(w), w.key());
        }
        let r = insert_new(&mut self.workers, w);
        assert(views_of(old_workers.push(w)) =~= views_of(old_workers).push(w@));
        r
    }

    /// Registers a client under `id`, unless a client already has that id.
    pub fn create_client_with_id(&mut self, id: String, name: String, contact: String) -> (r: bool)
        requires
            old(self).wf(),
        ensures
            final(self).wf(),
            r == !id_taken(old(self)@.clients, |c: ClientView| client_id(c), id@),
            final(self)@ == if r {
                add_client(old(self)@, ClientView { id: id@, name: name@, contact: contact@ })
            } else {
                old(self)@
            },
    {
        let c = Client { id, name, contact };
        let ghost old_clients = self.clients@;
        proof {
            lemma_taken(old_clients, |c: ClientView| client_id(c), c.key());
        }
        let r = insert_new(&mut self.clients, c);
        assert(views_of(old_clients.push(c)) =~= views_of(old_clients).push(c@));
        r
    }

    /// Registers a project under `id`, unless a project already has that id.
    /// The client id is a plain reference and is not checked.
    pub fn create_project_with_id(
        &mut self,
        id: String,
        client_id: String,
        name: String,
        description: String,
    ) -> (r: bool)
        requires
            old(self).wf(),
        ensures
            final(self).wf(),
            r == !id_taken(old(self)@.projects, |p: ProjectView| project_id(p), id@),
            final(self)@ == if r {
                add_project(
                    old(self)@,
                    ProjectView { id: id@, client_id: client_id@, name: name@, description: description@ },
                )
            } else {
                old(self)@
            },
    {
        let p = Project { id, client_id, name, description };
        let ghost old_projects = self.projects@;
        proof {
            lemma_taken(old_projects, |p: ProjectView| project_id(p), p.key());
        }
        let r = insert_new(&mut self.projects, p);
        assert(views_of(old_projects.push(p)) =~= views_of(old_projects).push(p@));
        r
    }

    /// Registers a bot under a freshly drawn id and returns that id; `None`,
    /// changing nothing, only if the drawn id is already a bot's.
    pub fn register_bot(&mut self, name: String, capabilities: Vec<String>) -> (r: Option<String>)
        requires
            old(self).wf(),
        ensures
            final(self).wf(),
            match r {
                Some(id) => final(self)@ == add_bot(
                    old(self)@,
                    BotView { id: id@, name: name@, capabilities: text_views(capabilities@) },
                ),
                None => final(self)@ == old(self)@ && old(self)@.bots.len() > 0,
            },
    {
        let id = new_id();
        if self.register_bot_with_id(id.clone(), name, capabilities) {
            Some(id)
        } else {
            None
        }
    }

    /// Registers a worker under a freshly drawn id, with its first heartbeat
    /// at the current time, and returns that id; `None`, changing nothing,
    /// only if the drawn id is already a worker's.
    pub fn register_worker(&mut self, name: String, capabilities: Vec<String>) -> (r: Option<String>)
        requires
            old(self).wf(),
        ensures
            final(self).wf(),
            match r {
                Some(id) => final(self)@ == add_worker(
                    old(self)@,
                    WorkerView {
                        id: id@,
                        name: name@,
                        capabilities: text_views(capabilities@),
                        last_heartbeat: final(self)@.workers.last().last_heartbeat,
                    },
                ),
                None => final(self)@ == old(self)@ && old(self)@.workers.len() > 0,
            },
    {
        let id = new_id();
        let now = now_secs();
        if self.register_worker_with_id(id.clone(), name, capabilities, now) {
            Some(id)
        } else {
            None
        }
    }

    /// Registers a client under a freshly drawn id and returns that id;
    /// `None`, changing nothing, only if the drawn id is already a client's.
    pub fn create_client(&mut self, name: String, contact: String) -> (r: Option<String>)
        requires
            old(self).wf(),
        ensures
            final(self).wf(),
            match r {
                Some(id) => final(self)@ == add_client(
                    old(self)@,
                    ClientView { id: id@, name: name@, contact: contact@ },
                ),
                None => final(self)@ == old(self)@ && old(self)@.clients.len() > 0,
            },
    {
        let id = new_id();
        if self.create_client_with_id(id.clone(), name, contact) {
            Some(id)
        } else {
            None
        }
    }

    /// Registers a project under a freshly drawn id and returns that id;
    /// `None`, changing nothing, only if the drawn id is already a project's.
    pub fn create_project(&mut self, client_id: String, name: String, description: String) -> (r: Option<String>)
        requires
            old(self).wf(),
        ensures
            final(self).wf(),
            match r {
                Some(id) => final(self)@ == add_project(
                    old(self)@,
                    ProjectView { id: id@, client_id: client_id@, name: name@, description: description@ },
                ),
                None => final(self)@ == old(self)@ && old(self)@.projects.len() > 0,
            },
    {
        let id = new_id();
        if self.create_project_with_id(id.clone(), client_id, name, description) {
            Some(id)
        } else {
            None
        }
    }

    /// Records a heartbeat of worker `worker` at `now`; fails, changing
    /// nothing, when no worker has that id. Task leases are untouched: worker
    /// liveness and leases are separate clocks.
    pub fn heartbeat_at(&mut self, worker: &str, now: u64) -> (r: bool)
        requires
            old(self).wf(),
        ensures
            final(self).wf(),
            r == id_taken(old(self)@.workers, |w: WorkerView| worker_id(w), worker@),
            final(self)@ == if r {
                beat(old(self)@, worker@, now)
            } else {
                old(self)@
            },
    {
        proof {
            lemma_taken(self.workers@, |w: WorkerView| worker_id(w), worker@);
        }
        match index_of(&self.workers, worker) {
            Some(i) => {
                let ghost ws = views_of(self.workers@);
                let ghost key = |w: WorkerView| worker_id(w);
                proof {
                    let j = id_position(ws, key, worker@);
                    assert(key(ws[i as int]) == worker@);
                    assert(self.workers@[j].key() == self.workers@[i as int].key());
                }
                let mut w = self.workers[i].clone();
                w.last_heartbeat = now;
                self.workers.set(i, w);
                assert(views_of(self.workers@) =~= ws.update(i as int, w@));
                assert forall|a: int, b: int|
                    0 <= a < self.workers@.len() && 0 <= b < self.workers@.len()
                        && #[trigger] self.workers@[a].key() == #[trigger] self.workers@[b].key()
                        implies a == b by {
                    assert(old(self).workers@[a].key() == self.workers@[a].key());
                    assert(old(self).workers@[b].key() == self.workers@[b].key());
                }
                true
            },
            None => false,
        }
    }

    /// [`Registry::heartbeat_at`] at the current time.
    pub fn heartbeat(&mut self, worker: &str) -> (r: bool)
        requires
            old(self).wf(),
        ensures
            final(self).wf(),
            r == id_taken(old(self)@.workers, |w: WorkerView| worker_id(w), worker@),
            !r ==> final(self)@ == old(self)@,
            r ==> exists|now: u64| final(self)@ == #[trigger] beat(old(self)@, worker@, now),
    {
        let now = now_secs();
        self.heartbeat_at(worker, now)
    }

    /// The worker with id `id`, if any.
    pub fn worker(&self, id: &str) -> (r: Option<Worker>)
        requires
            self.wf(),
        ensures
            match r {
                Some(w) => id_taken(self@.workers, |w: WorkerView| worker_id(w), id@) && w@
                    == self@.workers[id_position(self@.workers, |w: WorkerView| worker_id(w), id@)],
                None => !id_taken(self@.workers, |w: WorkerView| worker_id(w), id@),
            },
    {
        proof {
            lemma_taken(self.workers@, |w: WorkerView| worker_id(w), id@);
        }
        match index_of(&self.workers, id) {
            Some(i) => {
                proof {
                    let ws = views_of(self.workers@);
                    let key = |w: WorkerView| worker_id(w);
                    let j = id_position(ws, key, id@);
                    assert(key(ws[i as int]) == id@);
                    assert(self.workers@[j].key() == self.workers@[i as int].key());
                }
                Some(self.workers[i].clone())
            },
            None => None,
        }
    }

    /// All clients, in ascending order of name.
    pub fn list_clients(&self) -> (r: Vec<Client>)
        ensures
            clients_by_name(views_of(r@), self@.clients),
    {
        let n = self.clients.len();
        let mut names: Vec<String> = Vec::new();
        let mut i: usize = 0;
        while i < n
            invariant
                n == self.clients@.len(),
                0 <= i <= n,
                names@.len() == i,
                forall|j: int| 0 <= j < i ==> #[trigger] names@[j]@ == self.clients@[j]@.name,
            decreases n - i,
        {
            names.push(self.clients[i].name.clone());
            i += 1;
        }
        let order = sorted_order(&names);
        let ghost keys = names@.map_values(|k: String| k@);
        let mut r: Vec<Client> = Vec::new();
        let mut k: usize = 0;
        while k < n
            invariant
                n == self.clients@.len(),
                names@.len() == n,
                keys == names@.map_values(|k: String| k@),
                forall|j: int| 0 <= j < n ==> #[trigger] names@[j]@ == self.clients@[j]@.name,
                crate::order::is_permutation(order@, n as nat),
                crate::order::sorts(order@, keys),
                0 <= k <= n,
                r@.len() == k,
                forall|j: int| 0 <= j < k ==> #[trigger] r@[j]@ == self.clients@[order@[j] as int]@,
            decreases n - k,
        {
            let c = self.clients[order[k]].clone();
            r.push(c);
            k += 1;
        }
        proof {
            let rv = views_of(r@);
            let sv = self@.clients;
            assert(arranged(rv, sv, order@));
            assert forall|i: int, j: int| 0 <= i < j < rv.len() implies text_le(
                #[trigger] rv[i].name,
                #[trigger] rv[j].name,
            ) by {
                assert(keys[order@[i] as int] == self.clients@[order@[i] as int]@.name);
                assert(keys[order@[j] as int] == self.clients@[order@[j] as int]@.name);
            }
        }
        r
    }

    /// All projects, in ascending order of name.
    pub fn list_projects(&self) -> (r: Vec<Project>)
        ensures
            projects_by_name(views_of(r@), self@.projects),
    {
        let n = self.projects.len();
        let mut names: Vec<String> = Vec::new();
        let mut i: usize = 0;
        while i < n
            invariant
                n == self.projects@.len(),
                0 <= i <= n,
                names@.len() == i,
                forall|j: int| 0 <= j < i ==> #[trigger] names@[j]@ == self.projects@[j]@.name,
            decreases n - i,
        {
            names.push(self.projects[i].name.clone());
            i += 1;
        }
        let order = sorted_order(&names);
        let ghost keys = names@.map_values(|k: String| k@);
        let mut r: Vec<Project> = Vec::new();
        let mut k: usize = 0;
        while k < n
            invariant
                n == self.projects@.len(),
                names@.len() == n,
                keys == names@.map_values(|k: String| k@),
                forall|j: int| 0 <= j < n ==> #[trigger] names@[j]@ == self.projects@[j]@.name,
                crate::order::is_permutation(order@, n as nat),
                crate::order::sorts(order@, keys),
                0 <= k <= n,
                r@.len() == k,
                forall|j: int| 0 <= j < k ==> #[trigger] r@[j]@ == self.projects@[order@[j] as int]@,
            decreases n - k,
        {
            let p = self.projects[order[k]].clone();
            r.push(p);
            k += 1;
        }
        proof {
            let rv = views_of(r@);
            let sv = self@.projects;
            assert(arranged(rv, sv, order@));
            assert forall|i: int, j: int| 0 <= i < j < rv.len() implies text_le(
                #[trigger] rv[i].name,
                #[trigger] rv[j].name,
            ) by {
                assert(keys[order@[i] as int] == self.projects@[order@[i] as int]@.name);
                assert(keys[order@[j] as int] == self.projects@[order@[j] as int]@.name);
            }
        }
        r
    }

    /// All bots, in registration order.
    pub fn bots(&self) -> (r: Vec<Bot>)
        ensures
            views_of(r@) == self@.bots,
    {
        copy_all(&self.bots)
    }

    /// All workers, in registration order.
    pub fn workers(&self) -> (r: Vec<Worker>)
        ensures
            views_of(r@) == self@.workers,
    {
        copy_all(&self.workers)
    }

    /// All clients, in registration order.
    pub fn clients(&self) -> (r: Vec<Client>)
        ensures
            views_of(r@) == self@.clients,
    {
        copy_all(&self.clients)
    }

    /// All projects, in registration order.
    pub fn projects(&self) -> (r: Vec<Project>)
        ensures
            views_of(r@) == self@.projects,
    {
        copy_all(&self.projects)
    }
}

} // verus!
