//! A conversation view: its texts, local variables, hotlist state, message
//! lines and nicklist, with the operations that change them.

use crate::keyed::{
    distinct, found_in_place, index_of, lemma_distinct_found_in_place, lemma_distinct_push,
    lemma_index_of, lemma_index_of_step, shift,
};
use crate::model::OnlineStatus;
use crate::text::{owned, same_text};
use vstd::prelude::*;

verus! {

/// How urgently a view asks for attention.
#[derive(Clone, Copy, Debug, PartialEq, Eq, Structural)]
pub enum HotlistPriority {
    Low,
    Message,
    Private,
    Highlight,
}

/// The colour a nicklist group is shown in.
#[derive(Clone, Copy, Debug, PartialEq, Eq, Structural)]
pub enum GroupColor {
    /// The colour of the bucket for automated accounts.
    Gray,
    /// The colour of the generic online and offline buckets.
    Grey,
    /// The colour of a role, as red, green and blue.
    Role(u32),
}

#[derive(Clone, Debug, PartialEq, Eq)]
pub struct LocalVar {
    pub name: String,
    pub value: String,
}

#[derive(Clone, Debug, PartialEq, Eq)]
pub struct NickGroup {
    pub name: String,
    pub color: GroupColor,
    pub visible: bool,
}

#[derive(Clone, Debug, PartialEq, Eq)]
pub struct Nick {
    pub name: String,
    /// The name of the group the nick is listed under, if any.
    pub group: Option<String>,
    /// The presence shown in front of the nick, if any.
    pub status: Option<OnlineStatus>,
}

pub struct LocalVarView {
    pub name: Seq<char>,
    pub value: Seq<char>,
}

pub struct NickGroupView {
    pub name: Seq<char>,
    pub color: GroupColor,
    pub visible: bool,
}

pub struct NickView {
    pub name: Seq<char>,
    pub group: Option<Seq<char>>,
    pub status: Option<OnlineStatus>,
}

impl View for LocalVar {
    type V = LocalVarView;

    open spec fn view(&self) -> LocalVarView {
        LocalVarView { name: self.name@, value: self.value@ }
    }
}

impl View for NickGroup {
    type V = NickGroupView;

    open spec fn view(&self) -> NickGroupView {
        NickGroupView { name: self.name@, color: self.color, visible: self.visible }
    }
}

pub open spec fn opt_text(s: Option<String>) -> Option<Seq<char>> {
    match s {
        Some(t) => Some(t@),
        None => None,
    }
}

impl View for Nick {
    type V = NickView;

    open spec fn view(&self) -> NickView {
        NickView { name: self.name@, group: opt_text(self.group), status: self.status }
    }
}

/// A conversation view as the host shows it.
#[derive(Debug)]
pub struct Buffer {
    name: String,
    title: String,
    short_name: String,
    full_name: String,
    localvars: Vec<LocalVar>,
    hotlist: Option<HotlistPriority>,
    history_loaded: bool,
    nicks_loaded: bool,
    nicklist_enabled: bool,
    groups: Vec<NickGroup>,
    nicks: Vec<Nick>,
    messages: Vec<u64>,
    read_marker: usize,
    guild_id: Option<u64>,
    channel_id: Option<u64>,
    pins_channel: Option<u64>,
}

/// What a view holds, as mathematical values.
#[verifier::ext_equal]
pub struct BufferView {
    /// The key the view is registered under.
    pub name: Seq<char>,
    pub title: Seq<char>,
    pub short_name: Seq<char>,
    pub full_name: Seq<char>,
    pub localvars: Seq<LocalVarView>,
    pub hotlist: Option<HotlistPriority>,
    pub history_loaded: bool,
    pub nicks_loaded: bool,
    pub nicklist_enabled: bool,
    pub groups: Seq<NickGroupView>,
    pub nicks: Seq<NickView>,
    /// The ids of the messages shown, oldest first.
    pub messages: Seq<u64>,
    /// How many of the messages, counted from the oldest, are read.
    pub read_marker: nat,
    pub guild_id: Option<u64>,
    pub channel_id: Option<u64>,
    /// The channel whose pinned messages the view lists, if it is such a view.
    pub pins_channel: Option<u64>,
}

impl View for Buffer {
    type V = BufferView;

    closed spec fn view(&self) -> BufferView {
        BufferView {
            name: self.name@,
            title: self.title@,
            short_name: self.short_name@,
            full_name: self.full_name@,
            localvars: self.localvars@.map_values(|v: LocalVar| v@),
            hotlist: self.hotlist,
            history_loaded: self.history_loaded,
            nicks_loaded: self.nicks_loaded,
            nicklist_enabled: self.nicklist_enabled,
            groups: self.groups@.map_values(|g: NickGroup| g@),
            nicks: self.nicks@.map_values(|n: Nick| n@),
            messages: self.messages@,
            read_marker: self.read_marker as nat,
            guild_id: self.guild_id,
            channel_id: self.channel_id,
            pins_channel: self.pins_channel,
        }
    }
}

impl BufferView {
    /// A fresh view registered under `name`: everything else empty or unset.
    pub open spec fn fresh(name: Seq<char>) -> BufferView {
        BufferView {
            name,
            title: Seq::empty(),
            short_name: Seq::empty(),
            full_name: Seq::empty(),
            localvars: Seq::empty(),
            hotlist: None,
            history_loaded: false,
            nicks_loaded: false,
            nicklist_enabled: false,
            groups: Seq::empty(),
            nicks: Seq::empty(),
            messages: Seq::empty(),
            read_marker: 0,
            guild_id: None,
            channel_id: None,
            pins_channel: None,
        }
    }

    pub open spec fn var_names(self) -> Seq<Seq<char>> {
        self.localvars.map_values(|v: LocalVarView| v.name)
    }

    pub open spec fn group_names(self) -> Seq<Seq<char>> {
        self.groups.map_values(|g: NickGroupView| g.name)
    }

    pub open spec fn nick_names(self) -> Seq<Seq<char>> {
        self.nicks.map_values(|n: NickView| n.name)
    }

    /// No local variable, group or nick is held twice, and the read marker
    /// lies within the lines.
    pub open spec fn wf(self) -> bool {
        &&& distinct(self.var_names())
        &&& distinct(self.group_names())
        &&& distinct(self.nick_names())
        &&& self.read_marker <= self.messages.len()
    }

    /// The value of a local variable, if it is set.
    pub open spec fn localvar(self, name: Seq<char>) -> Option<Seq<char>> {
        match index_of(self.var_names(), name) {
            Some(i) => Some(self.localvars[i].value),
            None => None,
        }
    }

    /// How many of the lines lie after the read marker.
    pub open spec fn unread_count(self) -> int {
        self.messages.len() - self.read_marker
    }

    pub open spec fn set_title(self, title: Seq<char>) -> BufferView {
        BufferView { title, ..self }
    }

    pub open spec fn set_short_name(self, short_name: Seq<char>) -> BufferView {
        BufferView { short_name, ..self }
    }

    pub open spec fn set_full_name(self, full_name: Seq<char>) -> BufferView {
        BufferView { full_name, ..self }
    }

    /// Sets a local variable: the value of an existing one is replaced in
    /// place, a new one is added at the end.
    pub open spec fn set_localvar(self, name: Seq<char>, value: Seq<char>) -> BufferView {
        let var = LocalVarView { name, value };
        match index_of(self.var_names(), name) {
            Some(i) => BufferView { localvars: self.localvars.update(i, var), ..self },
            None => BufferView { localvars: self.localvars.push(var), ..self },
        }
    }

    pub open spec fn set_hotlist(self, priority: HotlistPriority) -> BufferView {
        BufferView { hotlist: Some(priority), ..self }
    }

    pub open spec fn clear_hotlist(self) -> BufferView {
        BufferView { hotlist: None, ..self }
    }

    pub open spec fn set_history_loaded(self) -> BufferView {
        BufferView { history_loaded: true, ..self }
    }

    pub open spec fn set_nicks_loaded(self) -> BufferView {
        BufferView { nicks_loaded: true, ..self }
    }

    pub open spec fn enable_nicklist(self) -> BufferView {
        BufferView { nicklist_enabled: true, ..self }
    }

    pub open spec fn set_guild_id(self, id: u64) -> BufferView {
        BufferView { guild_id: Some(id), ..self }
    }

    pub open spec fn set_channel_id(self, id: u64) -> BufferView {
        BufferView { channel_id: Some(id), ..self }
    }

    pub open spec fn set_pins_channel(self, id: u64) -> BufferView {
        BufferView { pins_channel: Some(id), ..self }
    }

    /// Removes every line; nothing is left to be read.
    pub open spec fn clear(self) -> BufferView {
        BufferView { messages: Seq::empty(), read_marker: 0, ..self }
    }

    /// Adds a line at the end.
    pub open spec fn add_message(self, id: u64) -> BufferView {
        BufferView { messages: self.messages.push(id), ..self }
    }

    /// Moves the read marker behind the last line.
    pub open spec fn mark_read(self) -> BufferView {
        BufferView { read_marker: self.messages.len(), ..self }
    }

    /// Adds a nicklist group unless one of that name is there already.
    pub open spec fn add_group(
        self,
        name: Seq<char>,
        color: GroupColor,
        visible: bool,
    ) -> BufferView {
        match index_of(self.group_names(), name) {
            Some(_) => self,
            None => BufferView {
                groups: self.groups.push(NickGroupView { name, color, visible }),
                ..self
            },
        }
    }

    /// Adds a nick unless one of that name is listed already.
    pub open spec fn add_nick(
        self,
        name: Seq<char>,
        group: Option<Seq<char>>,
        status: Option<OnlineStatus>,
    ) -> BufferView {
        match index_of(self.nick_names(), name) {
            Some(_) => self,
            None => BufferView { nicks: self.nicks.push(NickView { name, group, status }), ..self },
        }
    }

    /// Removes the nick of exactly that name, if it is listed.
    pub open spec fn remove_nick(self, name: Seq<char>) -> BufferView {
        match index_of(self.nick_names(), name) {
            Some(i) => BufferView { nicks: self.nicks.remove(i), ..self },
            None => self,
        }
    }
}

/// A local variable that was set holds the value it was set to.
pub proof fn lemma_set_localvar_reads_back(b: BufferView, name: Seq<char>, value: Seq<char>)
    ensures
        b.set_localvar(name, value).localvar(name) == Some(value),
{
    lemma_index_of(b.var_names(), name);
    let after = b.set_localvar(name, value);
    match index_of(b.var_names(), name) {
        Some(i) => {
            assert(after.var_names() =~= b.var_names());
        },
        None => {
            assert(after.var_names() =~= b.var_names().push(name));
            crate::keyed::lemma_index_of_at(after.var_names(), name, b.localvars.len() as int);
        },
    }
}

/// Setting one local variable leaves every other one as it was.
pub proof fn lemma_set_localvar_keeps_others(
    b: BufferView,
    name: Seq<char>,
    value: Seq<char>,
    other: Seq<char>,
)
    requires
        other != name,
    ensures
        b.set_localvar(name, value).localvar(other) == b.localvar(other),
{
    lemma_index_of(b.var_names(), name);
    lemma_index_of(b.var_names(), other);
    let after = b.set_localvar(name, value);
    match index_of(b.var_names(), name) {
        Some(i) => {
            assert(after.var_names() =~= b.var_names());
        },
        None => {
            assert(after.var_names() =~= b.var_names().push(name));
            match index_of(b.var_names(), other) {
                Some(j) => {
                    crate::keyed::lemma_index_of_at(after.var_names(), other, j);
                },
                None => {
                    crate::keyed::lemma_index_of_absent(after.var_names(), other);
                },
            }
        },
    }
}

/// Setting a local variable to the value it holds changes nothing, so that
/// setting it twice is the same as setting it once.
pub proof fn lemma_set_localvar_idempotent(b: BufferView, name: Seq<char>, value: Seq<char>)
    ensures
        b.localvar(name) == Some(value) ==> b.set_localvar(name, value) == b,
        b.set_localvar(name, value).set_localvar(name, value) == b.set_localvar(name, value),
        b.set_localvar(name, value).localvars.len() == if b.localvar(name) is Some {
            b.localvars.len()
        } else {
            b.localvars.len() + 1
        },
        distinct(b.var_names()) ==> distinct(b.set_localvar(name, value).var_names()),
{
    lemma_index_of(b.var_names(), name);
    lemma_set_localvar_reads_back(b, name, value);
    let after = b.set_localvar(name, value);
    lemma_index_of(after.var_names(), name);
    match index_of(b.var_names(), name) {
        Some(i) => {
            assert(after.var_names() =~= b.var_names());
            if b.localvar(name) == Some(value) {
                assert(after.localvars =~= b.localvars);
            }
        },
        None => {
            assert(after.var_names() =~= b.var_names().push(name));
            if distinct(b.var_names()) {
                lemma_distinct_push(b.var_names(), name);
            }
        },
    }
    let i = index_of(after.var_names(), name).unwrap();
    assert(after.set_localvar(name, value).localvars =~= after.localvars);
}

/// A nick that is listed stays listed when a nick is added, the nick added is
/// listed afterwards, and adding a nick that is listed changes nothing.
pub proof fn lemma_add_nick(
    b: BufferView,
    name: Seq<char>,
    group: Option<Seq<char>>,
    status: Option<OnlineStatus>,
    other: Seq<char>,
)
    ensures
        index_of(b.add_nick(name, group, status).nick_names(), name) is Some,
        index_of(b.nick_names(), other) is Some ==> index_of(
            b.add_nick(name, group, status).nick_names(),
            other,
        ) is Some,
        index_of(b.nick_names(), name) is Some ==> b.add_nick(name, group, status) == b,
{
    lemma_index_of(b.nick_names(), name);
    lemma_index_of(b.nick_names(), other);
    let after = b.add_nick(name, group, status);
    lemma_index_of(after.nick_names(), name);
    lemma_index_of(after.nick_names(), other);
    if index_of(b.nick_names(), name) is None {
        assert(after.nick_names() =~= b.nick_names().push(name));
        assert(after.nick_names()[b.nicks.len() as int] == name);
        if index_of(b.nick_names(), other) is Some {
            let j = index_of(b.nick_names(), other).unwrap();
            assert(after.nick_names()[j] == other);
        }
    }
}

/// A nick that was removed is listed no more, and every other nick that was
/// listed still is.
pub proof fn lemma_remove_nick(b: BufferView, name: Seq<char>, other: Seq<char>)
    requires
        distinct(b.nick_names()),
    ensures
        index_of(b.remove_nick(name).nick_names(), name) is None,
        other != name && index_of(b.nick_names(), other) is Some ==> index_of(
            b.remove_nick(name).nick_names(),
            other,
        ) is Some,
        distinct(b.remove_nick(name).nick_names()),
{
    let names = b.nick_names();
    let after = b.remove_nick(name).nick_names();
    lemma_index_of(names, name);
    lemma_index_of(names, other);
    lemma_index_of(after, name);
    lemma_index_of(after, other);
    match index_of(names, name) {
        Some(i) => {
            assert(after =~= names.remove(i));
            if index_of(after, name) is Some {
                let k = index_of(after, name).unwrap();
                if k < i {
                    assert(names[k] == name);
                } else {
                    assert(names[k + 1] == name);
                }
            }
            if other != name && index_of(names, other) is Some {
                let j = index_of(names, other).unwrap();
                if j < i {
                    assert(after[j] == other);
                } else {
                    assert(after[j - 1] == other);
                }
            }
        },
        None => {},
    }
}

impl Buffer {
    pub open spec fn wf(&self) -> bool {
        self@.wf()
    }

    /// A fresh view registered under `name`.
    pub fn new(name: &str) -> (b: Buffer)
        ensures
            b@ == BufferView::fresh(name@),
            b.wf(),
    {
        let b = Buffer {
            name: owned(name),
            title: String::new(),
            short_name: String::new(),
            full_name: String::new(),
            localvars: Vec::new(),
            hotlist: None,
            history_loaded: false,
            nicks_loaded: false,
            nicklist_enabled: false,
            groups: Vec::new(),
            nicks: Vec::new(),
            messages: Vec::new(),
            read_marker: 0,
            guild_id: None,
            channel_id: None,
            pins_channel: None,
        };
        assert(b@.localvars =~= Seq::empty());
        assert(b@.groups =~= Seq::empty());
        assert(b@.nicks =~= Seq::empty());
        assert(b@.messages =~= Seq::empty());
        b
    }

    pub fn set_title(&mut self, title: &str)
        ensures
            final(self)@ == old(self)@.set_title(title@),
    {
        self.title = owned(title);
    }

    pub fn set_short_name(&mut self, short_name: &str)
        ensures
            final(self)@ == old(self)@.set_short_name(short_name@),
    {
        self.short_name = owned(short_name);
    }

    pub fn set_full_name(&mut self, full_name: &str)
        ensures
            final(self)@ == old(self)@.set_full_name(full_name@),
    {
        self.full_name = owned(full_name);
    }

    fn var_position(&self, name: &String) -> (r: Option<usize>)
        ensures
            r matches Some(i) ==> index_of(self@.var_names(), name@) == Some(i as int) && i
                < self.localvars.len(),
            r is None ==> index_of(self@.var_names(), name@) is None,
    {
        let ghost names = self@.var_names();
        let mut i: usize = 0;
        assert(names.skip(0) =~= names);
        while i < self.localvars.len()
            invariant
                i <= self.localvars.len(),
                names == self@.var_names(),
                names.len() == self.localvars.len(),
                index_of(names, name@) == shift(index_of(names.skip(i as int), name@), i as int),
            decreases self.localvars.len() - i,
        {
            assert(names[i as int] == self.localvars@[i as int].name@);
            if same_text(&self.localvars[i].name, name) {
                return Some(i);
            }
            proof {
                lemma_index_of_step(names, name@, i as int);
            }
            i = i + 1;
        }
        None
    }

    /// Sets a local variable, replacing the value of one that is set already.
    pub fn set_localvar(&mut self, name: &str, value: &str)
        requires
            old(self).wf(),
        ensures
            final(self)@ == old(self)@.set_localvar(name@, value@),
            final(self).wf(),
    {
        let key = owned(name);
        let found = self.var_position(&key);
        proof {
            lemma_index_of(self@.var_names(), name@);
        }
        match found {
            Some(i) => {
                self.localvars[i].value = owned(value);
                assert(self@.localvars =~= old(self)@.localvars.update(
                    i as int,
                    LocalVarView { name: name@, value: value@ },
                ));
                assert(self@.var_names() =~= old(self)@.var_names());
            },
            None => {
                self.localvars.push(LocalVar { name: key, value: owned(value) });
                assert(self@.localvars =~= old(self)@.localvars.push(
                    LocalVarView { name: name@, value: value@ },
                ));
                assert(self@.var_names() =~= old(self)@.var_names().push(name@));
                proof {
                    lemma_distinct_push(old(self)@.var_names(), name@);
                }
            },
        }
    }

    /// The value of a local variable, if it is set.
    pub fn get_localvar(&self, name: &str) -> (r: Option<&String>)
        ensures
            r matches Some(v) ==> self@.localvar(name@) == Some(v@),
            r is None ==> self@.localvar(name@) is None,
    {
        let key = owned(name);
        match self.var_position(&key) {
            Some(i) => {
                assert(self@.localvars[i as int].value == self.localvars@[i as int].value@);
                Some(&self.localvars[i].value)
            },
            None => None,
        }
    }

    pub fn set_hotlist(&mut self, priority: HotlistPriority)
        ensures
            final(self)@ == old(self)@.set_hotlist(priority),
    {
        self.hotlist = Some(priority);
    }

    pub fn clear_hotlist(&mut self)
        ensures
            final(self)@ == old(self)@.clear_hotlist(),
    {
        self.hotlist = None;
    }

    pub fn set_history_loaded(&mut self)
        ensures
            final(self)@ == old(self)@.set_history_loaded(),
    {
        self.history_loaded = true;
    }

    pub fn set_nicks_loaded(&mut self)
        ensures
            final(self)@ == old(self)@.set_nicks_loaded(),
    {
        self.nicks_loaded = true;
    }

    pub fn enable_nicklist(&mut self)
        ensures
            final(self)@ == old(self)@.enable_nicklist(),
    {
        self.nicklist_enabled = true;
    }

    pub fn set_guild_id(&mut self, id: u64)
        ensures
            final(self)@ == old(self)@.set_guild_id(id),
    {
        self.guild_id = Some(id);
    }

    pub fn set_channel_id(&mut self, id: u64)
        ensures
            final(self)@ == old(self)@.set_channel_id(id),
    {
        self.channel_id = Some(id);
    }

    pub fn set_pins_channel(&mut self, id: u64)
        ensures
            final(self)@ == old(self)@.set_pins_channel(id),
    {
        self.pins_channel = Some(id);
    }

    /// Removes every line.
    pub fn clear(&mut self)
        ensures
            final(self)@ == old(self)@.clear(),
    {
        self.messages = Vec::new();
        self.read_marker = 0;
        assert(self@.messages =~= Seq::empty());
    }

    /// Adds a line for the message at the end.
    pub fn add_message(&mut self, id: u64)
        ensures
            final(self)@ == old(self)@.add_message(id),
    {
        self.messages.push(id);
    }

    /// Moves the read marker behind the last line.
    pub fn mark_read(&mut self)
        ensures
            final(self)@ == old(self)@.mark_read(),
    {
        self.read_marker = self.messages.len();
    }

    fn group_position(&self, name: &String) -> (r: Option<usize>)
        ensures
            r matches Some(i) ==> index_of(self@.group_names(), name@) == Some(i as int) && i
                < self.groups.len(),
            r is None ==> index_of(self@.group_names(), name@) is None,
    {
        let ghost names = self@.group_names();
        let mut i: usize = 0;
        assert(names.skip(0) =~= names);
        while i < self.groups.len()
            invariant
                i <= self.groups.len(),
                names == self@.group_names(),
                names.len() == self.groups.len(),
                index_of(names, name@) == shift(index_of(names.skip(i as int), name@), i as int),
            decreases self.groups.len() - i,
        {
            assert(names[i as int] == self.groups@[i as int].name@);
            if same_text(&self.groups[i].name, name) {
                return Some(i);
            }
            proof {
                lemma_index_of_step(names, name@, i as int);
            }
            i = i + 1;
        }
        None
    }

    fn nick_position(&self, name: &String) -> (r: Option<usize>)
        ensures
            r matches Some(i) ==> index_of(self@.nick_names(), name@) == Some(i as int) && i
                < self.nicks.len(),
            r is None ==> index_of(self@.nick_names(), name@) is None,
    {
        let ghost names = self@.nick_names();
        let mut i: usize = 0;
        assert(names.skip(0) =~= names);
        while i < self.nicks.len()
            invariant
                i <= self.nicks.len(),
                names == self@.nick_names(),
                names.len() == self.nicks.len(),
                index_of(names, name@) == shift(index_of(names.skip(i as int), name@), i as int),
            decreases self.nicks.len() - i,
        {
            assert(names[i as int] == self.nicks@[i as int].name@);
            if same_text(&self.nicks[i].name, name) {
                return Some(i);
            }
            proof {
                lemma_index_of_step(names, name@, i as int);
            }
            i = i + 1;
        }
        None
    }

    /// Whether the nicklist has a group of that name.
    pub fn search_nicklist_group(&self, name: &str) -> (found: bool)
        ensures
            found == index_of(self@.group_names(), name@).is_some(),
    {
        let key = owned(name);
        self.group_position(&key).is_some()
    }

    /// Adds a nicklist group unless one of that name is there already.
    pub fn add_group(&mut self, name: &str, color: GroupColor, visible: bool)
        requires
            old(self).wf(),
        ensures
            final(self)@ == old(self)@.add_group(name@, color, visible),
            final(self).wf(),
    {
        let key = owned(name);
        if self.group_position(&key).is_none() {
            self.groups.push(NickGroup { name: key, color, visible });
            assert(self@.groups =~= old(self)@.groups.push(
                NickGroupView { name: name@, color, visible },
            ));
            assert(self@.group_names() =~= old(self)@.group_names().push(name@));
            proof {
                lemma_distinct_push(old(self)@.group_names(), name@);
            }
        }
    }

    /// Whether a nick of exactly that name is listed, in whichever group.
    pub fn search_nick(&self, name: &str) -> (found: bool)
        ensures
            found == index_of(self@.nick_names(), name@).is_some(),
    {
        let key = owned(name);
        self.nick_position(&key).is_some()
    }

    /// Lists a nick, under a group or at the top level, unless one of that
    /// name is listed already.
    pub fn add_nick(&mut self, name: &str, group: Option<&str>, status: Option<OnlineStatus>)
        requires
            old(self).wf(),
        ensures
            final(self)@ == old(self)@.add_nick(
                name@,
                match group {
                    Some(g) => Some(g@),
                    None => None,
                },
                status,
            ),
            final(self).wf(),
    {
        let key = owned(name);
        if self.nick_position(&key).is_none() {
            let group_name = match group {
                Some(g) => Some(owned(g)),
                None => None,
            };
            let ghost group_view = opt_text(group_name);
            self.nicks.push(Nick { name: key, group: group_name, status });
            assert(self@.nicks =~= old(self)@.nicks.push(
                NickView { name: name@, group: group_view, status },
            ));
            assert(self@.nick_names() =~= old(self)@.nick_names().push(name@));
            proof {
                lemma_distinct_push(old(self)@.nick_names(), name@);
            }
        }
    }

    /// Removes the nick of exactly that name; says whether there was one.
    pub fn remove_nick(&mut self, name: &str) -> (removed: bool)
        requires
            old(self).wf(),
        ensures
            final(self)@ == old(self)@.remove_nick(name@),
            removed == index_of(old(self)@.nick_names(), name@).is_some(),
            final(self).wf(),
    {
        let key = owned(name);
        match self.nick_position(&key) {
            Some(i) => {
                let _ = self.nicks.remove(i);
                assert(self@.nicks =~= old(self)@.nicks.remove(i as int));
                assert(self@.nick_names() =~= old(self)@.nick_names().remove(i as int));
                true
            },
            None => false,
        }
    }

    pub fn name(&self) -> (r: &String)
        ensures
            r@ == self@.name,
    {
        &self.name
    }

    pub fn title(&self) -> (r: &String)
        ensures
            r@ == self@.title,
    {
        &self.title
    }

    pub fn short_name(&self) -> (r: &String)
        ensures
            r@ == self@.short_name,
    {
        &self.short_name
    }

    pub fn full_name(&self) -> (r: &String)
        ensures
            r@ == self@.full_name,
    {
        &self.full_name
    }

    pub fn hotlist(&self) -> (r: Option<HotlistPriority>)
        ensures
            r == self@.hotlist,
    {
        self.hotlist
    }

    pub fn history_loaded(&self) -> (r: bool)
        ensures
            r == self@.history_loaded,
    {
        self.history_loaded
    }

    pub fn nicks_loaded(&self) -> (r: bool)
        ensures
            r == self@.nicks_loaded,
    {
        self.nicks_loaded
    }

    pub fn nicklist_enabled(&self) -> (r: bool)
        ensures
            r == self@.nicklist_enabled,
    {
        self.nicklist_enabled
    }

    pub fn guild_id(&self) -> (r: Option<u64>)
        ensures
            r == self@.guild_id,
    {
        self.guild_id
    }

    pub fn channel_id(&self) -> (r: Option<u64>)
        ensures
            r == self@.channel_id,
    {
        self.channel_id
    }

    pub fn pins_channel(&self) -> (r: Option<u64>)
        ensures
            r == self@.pins_channel,
    {
        self.pins_channel
    }

    /// The ids of the messages shown, oldest first.
    pub fn messages(&self) -> (r: &Vec<u64>)
        ensures
            r@ == self@.messages,
    {
        &self.messages
    }

    /// How many of the lines, counted from the oldest, are read.
    pub fn read_marker(&self) -> (r: usize)
        ensures
            r == self@.read_marker,
    {
        self.read_marker
    }

    pub fn localvars(&self) -> (r: &Vec<LocalVar>)
        ensures
            r@.map_values(|v: LocalVar| v@) == self@.localvars,
    {
        &self.localvars
    }

    pub fn groups(&self) -> (r: &Vec<NickGroup>)
        ensures
            r@.map_values(|g: NickGroup| g@) == self@.groups,
    {
        &self.groups
    }

    pub fn nicks(&self) -> (r: &Vec<Nick>)
        ensures
            r@.map_values(|n: Nick| n@) == self@.nicks,
    {
        &self.nicks
    }

    /// Whether the view is well formed. Every view made and changed by the
    /// operations of this library is; a caller outside it can make sure.
    pub fn is_well_formed(&self) -> (r: bool)
        ensures
            r == self.wf(),
    {
        proof {
            lemma_distinct_found_in_place(self@.var_names());
            lemma_distinct_found_in_place(self@.group_names());
            lemma_distinct_found_in_place(self@.nick_names());
        }
        if self.read_marker > self.messages.len() {
            return false;
        }
        let mut i: usize = 0;
        while i < self.localvars.len()
            invariant
                i <= self.localvars.len(),
                self@.var_names().len() == self.localvars.len(),
                found_in_place(self@.var_names(), i as int),
                distinct(self@.var_names()) <==> found_in_place(
                    self@.var_names(),
                    self@.var_names().len() as int,
                ),
            decreases self.localvars.len() - i,
        {
            assert(self@.var_names()[i as int] == self.localvars@[i as int].name@);
            match self.var_position(&self.localvars[i].name) {
                Some(at) => {
                    if at != i {
                        return false;
                    }
                },
                None => {
                    return false;
                },
            }
            i = i + 1;
        }
        let mut i: usize = 0;
        while i < self.groups.len()
            invariant
                i <= self.groups.len(),
                self@.group_names().len() == self.groups.len(),
                found_in_place(self@.group_names(), i as int),
                distinct(self@.group_names()) <==> found_in_place(
                    self@.group_names(),
                    self@.group_names().len() as int,
                ),
            decreases self.groups.len() - i,
        {
            assert(self@.group_names()[i as int] == self.groups@[i as int].name@);
            match self.group_position(&self.groups[i].name) {
                Some(at) => {
                    if at != i {
                        return false;
                    }
                },
                None => {
                    return false;
                },
            }
            i = i + 1;
        }
        let mut i: usize = 0;
        while i < self.nicks.len()
            invariant
                i <= self.nicks.len(),
                self@.nick_names().len() == self.nicks.len(),
                found_in_place(self@.nick_names(), i as int),
                distinct(self@.nick_names()) <==> found_in_place(
                    self@.nick_names(),
                    self@.nick_names().len() as int,
                ),
            decreases self.nicks.len() - i,
        {
            assert(self@.nick_names()[i as int] == self.nicks@[i as int].name@);
            match self.nick_position(&self.nicks[i].name) {
                Some(at) => {
                    if at != i {
                        return false;
                    }
                },
                None => {
                    return false;
                },
            }
            i = i + 1;
        }
        true
    }
}

} // verus!