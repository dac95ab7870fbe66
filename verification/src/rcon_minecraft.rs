//! Per-connection session state and the command dispatcher.
//!
//! A session holds the online roster, the whitelist and the whitelist flag,
//! all owned by one connection. The dispatcher maps one request packet to at
//! most one reply; the two commands that need the player directory hand a
//! pending lookup back to the caller, who answers it through
//! [`Minecraft::apply_resolution`].

use crate::packet::{PacketModel, RconPacket, RconPacketType};
use crate::text::{dec_str, join_comma, push_dec, push_joined, str_eq};
use vstd::prelude::*;

verus! {

/// Per-connection session state.
pub struct Minecraft {
    online_players: Vec<String>,
    whitelist_players: Vec<String>,
    whitelist_enabled: bool,
}

/// Mathematical model of a session.
#[verifier::ext_equal]
pub struct SessionModel {
    pub online: Seq<Seq<char>>,
    pub whitelist: Seq<Seq<char>>,
    pub enabled: bool,
}

impl View for Minecraft {
    type V = SessionModel;

    closed spec fn view(&self) -> SessionModel {
        SessionModel {
            online: self.online_players.deep_view(),
            whitelist: self.whitelist_players.deep_view(),
            enabled: self.whitelist_enabled,
        }
    }
}

/// Which whitelist change a pending directory lookup will feed.
#[derive(Debug, Clone, Copy, PartialEq, Eq, Structural)]
pub enum WhitelistAction {
    Add,
    Remove,
}

/// A directory lookup the caller must perform before the command can
/// finish.
#[derive(Debug)]
pub struct PendingResolve {
    pub action: WhitelistAction,
    pub raw_name: String,
    pub id: i32,
}

/// Mathematical model of a pending lookup.
#[verifier::ext_equal]
pub struct ResolveModel {
    pub action: WhitelistAction,
    pub raw: Seq<char>,
    pub id: i32,
}

impl View for PendingResolve {
    type V = ResolveModel;

    open spec fn view(&self) -> ResolveModel {
        ResolveModel { action: self.action, raw: self.raw_name@, id: self.id }
    }
}

/// What one packet's handling asks of the caller.
#[derive(Debug)]
pub enum HandleStep {
    /// The packet is fully handled; send the reply, if there is one.
    Done(Option<RconPacket>),
    /// Resolve the raw name with the player directory, then finish the
    /// command through `apply_resolution`.
    Resolve(PendingResolve),
}

/// Mathematical model of a handling step.
#[verifier::ext_equal]
pub enum StepModel {
    Done(Option<PacketModel>),
    Resolve(ResolveModel),
}

impl View for HandleStep {
    type V = StepModel;

    open spec fn view(&self) -> StepModel {
        match self {
            HandleStep::Done(r) => StepModel::Done(
                match r {
                    Some(p) => Some(p@),
                    None => None,
                },
            ),
            HandleStep::Resolve(pending) => StepModel::Resolve(pending@),
        }
    }
}

/// A reply packet: echoes the id, carries the given text.
pub open spec fn reply(id: i32, body: Seq<char>) -> PacketModel {
    PacketModel { id, kind: RconPacketType::ResponseValue, body }
}

/// The "list" reply text.
pub open spec fn list_message(online: Seq<Seq<char>>) -> Seq<char> {
    "There are "@ + dec_str(online.len()) + " of a max of 20 players online: "@ + join_comma(
        online,
    )
}

/// The "whitelist list" reply text.
pub open spec fn whitelist_list_message(whitelist: Seq<Seq<char>>) -> Seq<char> {
    if whitelist.len() == 0 {
        "There are no whitelisted players"@
    } else {
        "There are "@ + dec_str(whitelist.len()) + " whitelisted player(s): "@ + join_comma(
            whitelist,
        )
    }
}

/// The reply text for a body that matches no command.
pub open spec fn unknown_message(body: Seq<char>) -> Seq<char> {
    "Unknown or incomplete command, see below for error"@ + body + "<--[HERE]"@
}

/// True when `s` starts with `prefix`.
pub open spec fn is_prefixed(s: Seq<char>, prefix: Seq<char>) -> bool {
    s.len() >= prefix.len() && s.take(prefix.len() as int) == prefix
}

/// The dispatcher's decision for one packet: the session afterwards and
/// what the caller is asked to do. An `Auth` always gets an `AuthResponse`,
/// refused (id -1) exactly for the body "no". An `ExecCommand` body is
/// matched against the command grammar; the two whitelist edits first need
/// the directory. A reply kind arriving as a request is dropped.
pub open spec fn spec_dispatch(s: SessionModel, p: PacketModel) -> (SessionModel, StepModel) {
    if p.kind == RconPacketType::Auth {
        let id: i32 = if p.body == "no"@ {
            -1 as i32
        } else {
            p.id
        };
        (
            s,
            StepModel::Done(
                Some(PacketModel { id, kind: RconPacketType::AuthResponse, body: Seq::empty() }),
            ),
        )
    } else if p.kind == RconPacketType::ExecCommand {
        if p.body == "list"@ {
            (s, StepModel::Done(Some(reply(p.id, list_message(s.online)))))
        } else if p.body == "whitelist on"@ {
            if s.enabled {
                (s, StepModel::Done(Some(reply(p.id, "Whitelist is already turned on"@))))
            } else {
                (
                    SessionModel { enabled: true, ..s },
                    StepModel::Done(Some(reply(p.id, "Whitelist is now turned on"@))),
                )
            }
        } else if p.body == "whitelist off"@ {
            if s.enabled {
                (
                    SessionModel { enabled: false, ..s },
                    StepModel::Done(Some(reply(p.id, "Whitelist is now turned off"@))),
                )
            } else {
                (s, StepModel::Done(Some(reply(p.id, "Whitelist is already turned off"@))))
            }
        } else if p.body == "whitelist list"@ {
            (s, StepModel::Done(Some(reply(p.id, whitelist_list_message(s.whitelist)))))
        } else if is_prefixed(p.body, "whitelist add "@) {
            (
                s,
                StepModel::Resolve(
                    ResolveModel {
                        action: WhitelistAction::Add,
                        raw: p.body.skip("whitelist add "@.len() as int),
                        id: p.id,
                    },
                ),
            )
        } else if is_prefixed(p.body, "whitelist remove "@) {
            (
                s,
                StepModel::Resolve(
                    ResolveModel {
                        action: WhitelistAction::Remove,
                        raw: p.body.skip("whitelist remove "@.len() as int),
                        id: p.id,
                    },
                ),
            )
        } else if p.body == "whitelist reload"@ {
            (s, StepModel::Done(Some(reply(p.id, Seq::empty()))))
        } else {
            (s, StepModel::Done(Some(reply(p.id, unknown_message(p.body)))))
        }
    } else {
        (s, StepModel::Done(None))
    }
}

/// The names with every occurrence of `name` removed.
pub open spec fn remove_name(names: Seq<Seq<char>>, name: Seq<char>) -> Seq<Seq<char>> {
    names.filter(|x: Seq<char>| x != name)
}

/// The session change and reply once the directory has answered. `None`
/// stands both for a name the directory does not know and for a failed
/// lookup: the reply is the same.
pub open spec fn spec_apply_resolution(
    s: SessionModel,
    action: WhitelistAction,
    id: i32,
    resolved: Option<Seq<char>>,
) -> (SessionModel, PacketModel) {
    match resolved {
        None => (s, reply(id, "That player does not exist"@)),
        Some(name) => match action {
            WhitelistAction::Add => {
                if s.whitelist.contains(name) {
                    (s, reply(id, "Player is already whitelisted"@))
                } else {
                    (
                        SessionModel {
                            online: s.online.push(name),
                            whitelist: s.whitelist.push(name),
                            enabled: s.enabled,
                        },
                        reply(id, "Added "@ + name + " to the whitelist"@),
                    )
                }
            },
            WhitelistAction::Remove => {
                if s.whitelist.contains(name) {
                    (
                        SessionModel {
                            online: remove_name(s.online, name),
                            whitelist: remove_name(s.whitelist, name),
                            enabled: s.enabled,
                        },
                        reply(id, "Removed "@ + name + " from the whitelist"@),
                    )
                } else {
                    (s, reply(id, "Player is not whitelisted"@))
                }
            },
        },
    }
}

/// True when the list holds this name.
fn contains_name(names: &Vec<String>, name: &String) -> (r: bool)
    ensures
        r == names.deep_view().contains(name@),
{
    let len = names.len();
    let mut i: usize = 0;
    while i < len
        invariant
            0 <= i <= len,
            len == names@.len(),
            forall|j: int| 0 <= j < i ==> names.deep_view()[j] != name@,
        decreases len - i,
    {
        if str_eq(names[i].as_str(), name.as_str()) {
            proof {
                assert(names.deep_view()[i as int] == name@);
            }
            return true;
        }
        i += 1;
    }
    proof {
        assert(forall|j: int|
            0 <= j < names.deep_view().len() ==> names.deep_view()[j] != name@);
    }
    false
}

/// Step of `remove_name` on a prefix: one more name is kept unless it is
/// the one being removed.
proof fn lemma_remove_name_step(names: Seq<Seq<char>>, name: Seq<char>, i: int)
    requires
        0 <= i < names.len(),
    ensures
        remove_name(names.take(i + 1), name) == if names[i] != name {
            remove_name(names.take(i), name).push(names[i])
        } else {
            remove_name(names.take(i), name)
        },
{
    reveal_with_fuel(Seq::<Seq<char>>::filter, 2);
    let t1 = names.take(i + 1);
    assert(t1.drop_last() =~= names.take(i));
    assert(t1.last() == names[i]);
}

/// Drops every occurrence of this name, keeping the order of the rest.
fn retain_without(names: &mut Vec<String>, name: &String)
    ensures
        final(names).deep_view() == remove_name(old(names).deep_view(), name@),
{
    let len = names.len();
    let mut kept: Vec<String> = Vec::new();
    let mut i: usize = 0;
    while i < len
        invariant
            0 <= i <= len,
            names@ == old(names)@,
            len == names@.len(),
            kept.deep_view() == remove_name(names.deep_view().take(i as int), name@),
        decreases len - i,
    {
        if !str_eq(names[i].as_str(), name.as_str()) {
            kept.push(names[i].clone());
        }
        proof {
            lemma_remove_name_step(names.deep_view(), name@, i as int);
            assert(kept.deep_view() =~= remove_name(
                names.deep_view().take(i as int + 1),
                name@,
            ));
        }
        i += 1;
    }
    proof {
        assert(names.deep_view().take(len as int) =~= names.deep_view());
    }
    *names = kept;
}

/// Builds the "list" reply text.
fn build_list_message(online: &Vec<String>) -> (r: String)
    ensures
        r@ == list_message(online.deep_view()),
{
    let mut s = "There are ".to_owned();
    push_dec(&mut s, online.len() as u64);
    s.append(" of a max of 20 players online: ");
    push_joined(&mut s, online);
    proof {
        assert(s@ =~= list_message(online.deep_view()));
    }
    s
}

/// Builds the "whitelist list" reply text.
fn build_whitelist_list_message(whitelist: &Vec<String>) -> (r: String)
    ensures
        r@ == whitelist_list_message(whitelist.deep_view()),
{
    if whitelist.len() == 0 {
        "There are no whitelisted players".to_owned()
    } else {
        let mut s = "There are ".to_owned();
        push_dec(&mut s, whitelist.len() as u64);
        s.append(" whitelisted player(s): ");
        push_joined(&mut s, whitelist);
        proof {
            assert(s@ =~= whitelist_list_message(whitelist.deep_view()));
        }
        s
    }
}

/// Builds the reply text for a body that matches no command.
fn build_unknown_message(body: &str) -> (r: String)
    ensures
        r@ == unknown_message(body@),
{
    let mut s = "Unknown or incomplete command, see below for error".to_owned();
    s.append(body);
    s.append("<--[HERE]");
    proof {
        assert(s@ =~= unknown_message(body@));
    }
    s
}

/// Builds the reply text for a completed whitelist addition.
fn build_added_message(name: &str) -> (r: String)
    ensures
        r@ == "Added "@ + name@ + " to the whitelist"@,
{
    let mut s = "Added ".to_owned();
    s.append(name);
    s.append(" to the whitelist");
    proof {
        assert(s@ =~= "Added "@ + name@ + " to the whitelist"@);
    }
    s
}

/// Builds the reply text for a completed whitelist removal.
fn build_removed_message(name: &str) -> (r: String)
    ensures
        r@ == "Removed "@ + name@ + " from the whitelist"@,
{
    let mut s = "Removed ".to_owned();
    s.append(name);
    s.append(" from the whitelist");
    proof {
        assert(s@ =~= "Removed "@ + name@ + " from the whitelist"@);
    }
    s
}

/// Wraps a reply packet as a finished step.
fn done_reply(id: i32, body: String) -> (r: HandleStep)
    ensures
        r@ == StepModel::Done(Some(reply(id, body@))),
{
    HandleStep::Done(
        Some(RconPacket { id, kind: RconPacketType::ResponseValue, body }),
    )
}

impl Minecraft {
    /// A fresh session: empty roster, empty whitelist, whitelist off.
    pub fn new() -> (m: Minecraft)
        ensures
            m@ == (SessionModel { online: Seq::empty(), whitelist: Seq::empty(), enabled: false }),
    {
        let m = Minecraft {
            online_players: Vec::new(),
            whitelist_players: Vec::new(),
            whitelist_enabled: false,
        };
        proof {
            assert(m@ =~= SessionModel {
                online: Seq::empty(),
                whitelist: Seq::empty(),
                enabled: false,
            });
        }
        m
    }

    /// Handles one request packet: mutates the session as the command asks
    /// and returns the reply, the silent drop, or the directory lookup that
    /// must happen before the command can finish.
    pub fn handle_rcon_packet(&mut self, rcon_packet: RconPacket) -> (r: HandleStep)
        ensures
            final(self)@ == spec_dispatch(old(self)@, rcon_packet@).0,
            r@ == spec_dispatch(old(self)@, rcon_packet@).1,
    {
        match rcon_packet.kind {
            RconPacketType::Auth => {
                let id: i32 = if str_eq(rcon_packet.body.as_str(), "no") {
                    -1
                } else {
                    rcon_packet.id
                };
                HandleStep::Done(
                    Some(
                        RconPacket {
                            id,
                            kind: RconPacketType::AuthResponse,
                            body: String::new(),
                        },
                    ),
                )
            },
            RconPacketType::ExecCommand => self.dispatch_command(rcon_packet),
            _ => HandleStep::Done(None),
        }
    }

    /// Matches an `ExecCommand` body against the command grammar.
    fn dispatch_command(&mut self, rcon_packet: RconPacket) -> (r: HandleStep)
        requires
            rcon_packet@.kind == RconPacketType::ExecCommand,
        ensures
            final(self)@ == spec_dispatch(old(self)@, rcon_packet@).0,
            r@ == spec_dispatch(old(self)@, rcon_packet@).1,
    {
        let body = rcon_packet.body.as_str();
        if str_eq(body, "list") {
            return done_reply(rcon_packet.id, build_list_message(&self.online_players));
        }
        if str_eq(body, "whitelist on") {
            if self.whitelist_enabled {
                return done_reply(rcon_packet.id, "Whitelist is already turned on".to_owned());
            } else {
                self.whitelist_enabled = true;
                return done_reply(rcon_packet.id, "Whitelist is now turned on".to_owned());
            }
        }
        if str_eq(body, "whitelist off") {
            if self.whitelist_enabled {
                self.whitelist_enabled = false;
                return done_reply(rcon_packet.id, "Whitelist is now turned off".to_owned());
            } else {
                return done_reply(rcon_packet.id, "Whitelist is already turned off".to_owned());
            }
        }
        if str_eq(body, "whitelist list") {
            return done_reply(
                rcon_packet.id,
                build_whitelist_list_message(&self.whitelist_players),
            );
        }
        let n = body.unicode_len();
        proof {
            reveal_strlit("whitelist add ");
            reveal_strlit("whitelist remove ");
        }
        if n >= 14 && str_eq(body.substring_char(0, 14), "whitelist add ") {
            let raw_name = body.substring_char(14, n).to_owned();
            proof {
                assert(raw_name@ =~= rcon_packet.body@.skip("whitelist add "@.len() as int));
            }
            return HandleStep::Resolve(
                PendingResolve {
                    action: WhitelistAction::Add,
                    raw_name,
                    id: rcon_packet.id,
                },
            );
        }
        if n >= 17 && str_eq(body.substring_char(0, 17), "whitelist remove ") {
            let raw_name = body.substring_char(17, n).to_owned();
            proof {
                assert(raw_name@ =~= rcon_packet.body@.skip("whitelist remove "@.len() as int));
            }
            return HandleStep::Resolve(
                PendingResolve {
                    action: WhitelistAction::Remove,
                    raw_name,
                    id: rcon_packet.id,
                },
            );
        }
        if str_eq(body, "whitelist reload") {
            return done_reply(rcon_packet.id, String::new());
        }
        done_reply(rcon_packet.id, build_unknown_message(body))
    }

    /// Finishes a whitelist edit once the directory has answered; `None`
    /// stands both for an unknown name and for a failed lookup.
    pub fn apply_resolution(&mut self, pending: PendingResolve, resolved: Option<String>) -> (r:
        RconPacket)
        ensures
            final(self)@ == spec_apply_resolution(
                old(self)@,
                pending.action,
                pending.id,
                resolved.deep_view(),
            ).0,
            r@ == spec_apply_resolution(
                old(self)@,
                pending.action,
                pending.id,
                resolved.deep_view(),
            ).1,
    {
        match resolved {
            None => RconPacket {
                id: pending.id,
                kind: RconPacketType::ResponseValue,
                body: "That player does not exist".to_owned(),
            },
            Some(name) => match pending.action {
                WhitelistAction::Add => {
                    if contains_name(&self.whitelist_players, &name) {
                        RconPacket {
                            id: pending.id,
                            kind: RconPacketType::ResponseValue,
                            body: "Player is already whitelisted".to_owned(),
                        }
                    } else {
                        let msg = build_added_message(name.as_str());
                        self.online_players.push(name.clone());
                        self.whitelist_players.push(name);
                        RconPacket {
                            id: pending.id,
                            kind: RconPacketType::ResponseValue,
                            body: msg,
                        }
                    }
                },
                WhitelistAction::Remove => {
                    if contains_name(&self.whitelist_players, &name) {
                        let msg = build_removed_message(name.as_str());
                        retain_without(&mut self.online_players, &name);
                        retain_without(&mut self.whitelist_players, &name);
                        RconPacket {
                            id: pending.id,
                            kind: RconPacketType::ResponseValue,
                            body: msg,
                        }
                    } else {
                        RconPacket {
                            id: pending.id,
                            kind: RconPacketType::ResponseValue,
                            body: "Player is not whitelisted".to_owned(),
                        }
                    }
                },
            },
        }
    }
}

/// Auth semantics: an `Auth` leaves the session unchanged and is answered
/// with an empty-bodied `AuthResponse` whose id is the sentinel -1 exactly
/// when the body is "no", and the request's id otherwise.
pub proof fn lemma_auth_semantics(s: SessionModel, id: i32, body: Seq<char>)
    ensures
        spec_dispatch(s, PacketModel { id, kind: RconPacketType::Auth, body }).0 == s,
        spec_dispatch(s, PacketModel { id, kind: RconPacketType::Auth, body }).1
            == StepModel::Done(
            Some(
                PacketModel {
                    id: if body == "no"@ {
                        -1 as i32
                    } else {
                        id
                    },
                    kind: RconPacketType::AuthResponse,
                    body: Seq::empty(),
                },
            ),
        ),
{
}

/// Reply-kind drop: a packet whose kind is a reply kind produces no reply
/// and leaves the session unchanged.
pub proof fn lemma_reply_kind_dropped(s: SessionModel, p: PacketModel)
    requires
        p.kind == RconPacketType::ResponseValue || p.kind == RconPacketType::AuthResponse,
    ensures
        spec_dispatch(s, p) == (s, StepModel::Done(None::<PacketModel>)),
{
}

/// Whitelist idempotence: enabling an already-enabled whitelist, or
/// disabling an already-disabled one, reports so and leaves the whole
/// session unchanged.
pub proof fn lemma_whitelist_toggle_idempotent(s: SessionModel, id: i32)
    ensures
        s.enabled ==> spec_dispatch(
            s,
            PacketModel { id, kind: RconPacketType::ExecCommand, body: "whitelist on"@ },
        ) == (s, StepModel::Done(Some(reply(id, "Whitelist is already turned on"@)))),
        !s.enabled ==> spec_dispatch(
            s,
            PacketModel { id, kind: RconPacketType::ExecCommand, body: "whitelist off"@ },
        ) == (s, StepModel::Done(Some(reply(id, "Whitelist is already turned off"@)))),
{
    reveal_strlit("list");
    reveal_strlit("whitelist on");
    reveal_strlit("whitelist off");
    reveal_strlit("whitelist list");
    reveal_strlit("whitelist add ");
    reveal_strlit("whitelist remove ");
    assert("whitelist on"@.len() == 12);
    assert("whitelist off"@.len() == 13);
    assert("list"@.len() == 4);
    assert("whitelist list"@.len() == 14);
    assert("whitelist add "@.len() == 14);
    assert("whitelist remove "@.len() == 17);
    assert("whitelist on"@ != "whitelist list"@);
    assert("whitelist off"@ != "whitelist list"@);
    assert(!is_prefixed("whitelist on"@, "whitelist add "@));
    assert(!is_prefixed("whitelist off"@, "whitelist add "@) && !is_prefixed(
        "whitelist off"@,
        "whitelist remove "@,
    ));
}

/// How many times this name occurs in the list.
pub open spec fn count_name(names: Seq<Seq<char>>, name: Seq<char>) -> nat {
    names.filter(|x: Seq<char>| x == name).len()
}

/// A name that a list does not contain occurs zero times in it.
proof fn lemma_count_absent(names: Seq<Seq<char>>, name: Seq<char>)
    requires
        !names.contains(name),
    ensures
        count_name(names, name) == 0,
    decreases names.len(),
{
    reveal_with_fuel(Seq::<Seq<char>>::filter, 2);
    if names.len() > 0 {
        assert(!names.drop_last().contains(name)) by {
            if names.drop_last().contains(name) {
                let j = choose|j: int|
                    0 <= j < names.drop_last().len() && names.drop_last()[j] == name;
                assert(names[j] == name);
            }
        }
        if names.last() == name {
            assert(names[names.len() - 1] == name);
        }
        lemma_count_absent(names.drop_last(), name);
    }
}

/// Appending a name raises its count by one.
proof fn lemma_count_push(names: Seq<Seq<char>>, name: Seq<char>)
    ensures
        count_name(names.push(name), name) == count_name(names, name) + 1,
{
    reveal_with_fuel(Seq::<Seq<char>>::filter, 2);
    assert(names.push(name).drop_last() =~= names);
    assert(names.push(name).last() == name);
}

/// Removing a name leaves a list that does not contain it.
proof fn lemma_remove_name_absent(names: Seq<Seq<char>>, name: Seq<char>)
    ensures
        !remove_name(names, name).contains(name),
{
    if remove_name(names, name).contains(name) {
        let j = choose|j: int|
            0 <= j < remove_name(names, name).len() && remove_name(names, name)[j] == name;
        names.lemma_filter_pred(|x: Seq<char>| x != name, j);
    }
}

/// Add/remove consistency: adding a name that is not yet whitelisted puts
/// exactly one occurrence of it in the whitelist; removing it afterwards
/// leaves none, and a whitelist that started empty reports "There are no
/// whitelisted players" again.
pub proof fn lemma_add_remove_consistency(s: SessionModel, id: i32, name: Seq<char>)
    requires
        !s.whitelist.contains(name),
    ensures
        ({
            let s_add = spec_apply_resolution(s, WhitelistAction::Add, id, Some(name)).0;
            let s_rem = spec_apply_resolution(s_add, WhitelistAction::Remove, id, Some(name)).0;
            &&& count_name(s_add.whitelist, name) == 1
            &&& !s_rem.whitelist.contains(name)
            &&& s.whitelist.len() == 0 ==> whitelist_list_message(s_add.whitelist)
                == "There are 1 whitelisted player(s): "@ + name
            &&& s.whitelist.len() == 0 ==> whitelist_list_message(s_rem.whitelist)
                == "There are no whitelisted players"@
        }),
{
    let s_add = spec_apply_resolution(s, WhitelistAction::Add, id, Some(name)).0;
    let s_rem = spec_apply_resolution(s_add, WhitelistAction::Remove, id, Some(name)).0;
    lemma_count_absent(s.whitelist, name);
    lemma_count_push(s.whitelist, name);
    assert(s_add.whitelist.contains(name)) by {
        assert(s_add.whitelist[s_add.whitelist.len() - 1] == name);
    }
    lemma_remove_name_absent(s_add.whitelist, name);
    if s.whitelist.len() == 0 {
        reveal_with_fuel(Seq::<Seq<char>>::filter, 3);
        assert(s_add.whitelist =~= Seq::<Seq<char>>::empty().push(name));
        assert(s_add.whitelist.drop_last() =~= Seq::<Seq<char>>::empty());
        assert(s_rem.whitelist.len() == 0);
        reveal_strlit("There are ");
        reveal_strlit(" whitelisted player(s): ");
        reveal_strlit("There are 1 whitelisted player(s): ");
        assert(dec_str(1) =~= seq!['1']);
        assert(join_comma(s_add.whitelist) == name);
        assert(whitelist_list_message(s_add.whitelist) =~= "There are 1 whitelisted player(s): "@
            + name);
    }
}

} // verus!
