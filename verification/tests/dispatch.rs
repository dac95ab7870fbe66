use acorn::packet::{RconPacket, RconPacketType};
use acorn::rcon_minecraft::{HandleStep, Minecraft, PendingResolve, WhitelistAction};

fn request(id: i32, kind: RconPacketType, body: &str) -> RconPacket {
    RconPacket { id, kind, body: body.to_string() }
}

fn expect_reply(step: HandleStep) -> RconPacket {
    match step {
        HandleStep::Done(Some(p)) => p,
        other => panic!("expected a reply, got {:?}", other),
    }
}

fn expect_pending(step: HandleStep) -> PendingResolve {
    match step {
        HandleStep::Resolve(pending) => pending,
        other => panic!("expected a pending lookup, got {:?}", other),
    }
}

fn run_command(mc: &mut Minecraft, id: i32, body: &str) -> RconPacket {
    let step = mc.handle_rcon_packet(request(id, RconPacketType::ExecCommand, body));
    match step {
        HandleStep::Done(Some(p)) => p,
        HandleStep::Resolve(pending) => {
            let name = pending.raw_name.clone();
            mc.apply_resolution(pending, Some(name))
        }
        other => panic!("expected a reply, got {:?}", other),
    }
}

#[test]
fn auth_no_is_refused_with_sentinel_id() {
    let mut mc = Minecraft::new();
    let reply = expect_reply(mc.handle_rcon_packet(request(21, RconPacketType::Auth, "no")));
    assert_eq!(reply.id, -1);
    assert_eq!(reply.kind, RconPacketType::AuthResponse);
    assert_eq!(reply.body, "");
}

#[test]
fn auth_anything_else_echoes_the_id() {
    let mut mc = Minecraft::new();
    let reply = expect_reply(mc.handle_rcon_packet(request(21, RconPacketType::Auth, "hunter2")));
    assert_eq!(reply.id, 21);
    assert_eq!(reply.kind, RconPacketType::AuthResponse);
    assert_eq!(reply.body, "");
}

#[test]
fn reply_kinds_are_dropped_silently() {
    let mut mc = Minecraft::new();
    let step = mc.handle_rcon_packet(request(5, RconPacketType::ResponseValue, "list"));
    assert!(matches!(step, HandleStep::Done(None)));
    let step = mc.handle_rcon_packet(request(5, RconPacketType::AuthResponse, ""));
    assert!(matches!(step, HandleStep::Done(None)));
}

#[test]
fn list_starts_empty() {
    let mut mc = Minecraft::new();
    let reply = run_command(&mut mc, 1, "list");
    assert_eq!(reply.kind, RconPacketType::ResponseValue);
    assert_eq!(reply.id, 1);
    assert_eq!(reply.body, "There are 0 of a max of 20 players online: ");
}

#[test]
fn list_shows_added_players() {
    let mut mc = Minecraft::new();
    run_command(&mut mc, 1, "whitelist add Steve");
    run_command(&mut mc, 2, "whitelist add Alex");
    let reply = run_command(&mut mc, 3, "list");
    assert_eq!(reply.body, "There are 2 of a max of 20 players online: Steve, Alex");
}

#[test]
fn whitelist_on_reports_and_stays_idempotent() {
    let mut mc = Minecraft::new();
    let first = run_command(&mut mc, 1, "whitelist on");
    assert_eq!(first.body, "Whitelist is now turned on");
    let second = run_command(&mut mc, 2, "whitelist on");
    assert_eq!(second.body, "Whitelist is already turned on");
    let third = run_command(&mut mc, 3, "whitelist on");
    assert_eq!(third.body, "Whitelist is already turned on");
}

#[test]
fn whitelist_off_reports_and_stays_idempotent() {
    let mut mc = Minecraft::new();
    let first = run_command(&mut mc, 1, "whitelist off");
    assert_eq!(first.body, "Whitelist is already turned off");
    run_command(&mut mc, 2, "whitelist on");
    let third = run_command(&mut mc, 3, "whitelist off");
    assert_eq!(third.body, "Whitelist is now turned off");
    let fourth = run_command(&mut mc, 4, "whitelist off");
    assert_eq!(fourth.body, "Whitelist is already turned off");
}

#[test]
fn whitelist_list_starts_empty() {
    let mut mc = Minecraft::new();
    let reply = run_command(&mut mc, 1, "whitelist list");
    assert_eq!(reply.body, "There are no whitelisted players");
}

#[test]
fn add_request_pends_resolution() {
    let mut mc = Minecraft::new();
    let pending = expect_pending(
        mc.handle_rcon_packet(request(4, RconPacketType::ExecCommand, "whitelist add Steve")),
    );
    assert_eq!(pending.action, WhitelistAction::Add);
    assert_eq!(pending.raw_name, "Steve");
    assert_eq!(pending.id, 4);
}

#[test]
fn remove_request_pends_resolution() {
    let mut mc = Minecraft::new();
    let pending = expect_pending(
        mc.handle_rcon_packet(request(6, RconPacketType::ExecCommand, "whitelist remove Alex")),
    );
    assert_eq!(pending.action, WhitelistAction::Remove);
    assert_eq!(pending.raw_name, "Alex");
    assert_eq!(pending.id, 6);
}

#[test]
fn add_then_list_once_then_remove() {
    let mut mc = Minecraft::new();
    let added = run_command(&mut mc, 1, "whitelist add Steve");
    assert_eq!(added.body, "Added Steve to the whitelist");
    let listed = run_command(&mut mc, 2, "whitelist list");
    assert_eq!(listed.body, "There are 1 whitelisted player(s): Steve");
    assert_eq!(listed.body.matches("Steve").count(), 1);
    let removed = run_command(&mut mc, 3, "whitelist remove Steve");
    assert_eq!(removed.body, "Removed Steve from the whitelist");
    let relisted = run_command(&mut mc, 4, "whitelist list");
    assert_eq!(relisted.body, "There are no whitelisted players");
}

#[test]
fn add_resolves_to_canonical_name() {
    let mut mc = Minecraft::new();
    let pending = expect_pending(
        mc.handle_rcon_packet(request(1, RconPacketType::ExecCommand, "whitelist add steve")),
    );
    assert_eq!(pending.raw_name, "steve");
    let reply = mc.apply_resolution(pending, Some("Steve".to_string()));
    assert_eq!(reply.body, "Added Steve to the whitelist");
    let listed = run_command(&mut mc, 2, "whitelist list");
    assert_eq!(listed.body, "There are 1 whitelisted player(s): Steve");
}

#[test]
fn add_unknown_player_does_not_exist() {
    let mut mc = Minecraft::new();
    let pending = expect_pending(
        mc.handle_rcon_packet(request(1, RconPacketType::ExecCommand, "whitelist add Nobody")),
    );
    let reply = mc.apply_resolution(pending, None);
    assert_eq!(reply.body, "That player does not exist");
    let listed = run_command(&mut mc, 2, "whitelist list");
    assert_eq!(listed.body, "There are no whitelisted players");
}

#[test]
fn add_twice_is_already_whitelisted() {
    let mut mc = Minecraft::new();
    run_command(&mut mc, 1, "whitelist add Steve");
    let second = run_command(&mut mc, 2, "whitelist add Steve");
    assert_eq!(second.body, "Player is already whitelisted");
    let listed = run_command(&mut mc, 3, "whitelist list");
    assert_eq!(listed.body, "There are 1 whitelisted player(s): Steve");
}

#[test]
fn remove_not_whitelisted_player() {
    let mut mc = Minecraft::new();
    let reply = run_command(&mut mc, 1, "whitelist remove Steve");
    assert_eq!(reply.body, "Player is not whitelisted");
}

#[test]
fn remove_unknown_player_does_not_exist() {
    let mut mc = Minecraft::new();
    let pending = expect_pending(
        mc.handle_rcon_packet(request(1, RconPacketType::ExecCommand, "whitelist remove Ghost")),
    );
    let reply = mc.apply_resolution(pending, None);
    assert_eq!(reply.body, "That player does not exist");
}

#[test]
fn remove_clears_player_from_roster_too() {
    let mut mc = Minecraft::new();
    run_command(&mut mc, 1, "whitelist add Steve");
    run_command(&mut mc, 2, "whitelist add Alex");
    run_command(&mut mc, 3, "whitelist remove Steve");
    let listed = run_command(&mut mc, 4, "list");
    assert_eq!(listed.body, "There are 1 of a max of 20 players online: Alex");
}

#[test]
fn whitelist_reload_replies_with_empty_body() {
    let mut mc = Minecraft::new();
    let reply = run_command(&mut mc, 1, "whitelist reload");
    assert_eq!(reply.kind, RconPacketType::ResponseValue);
    assert_eq!(reply.id, 1);
    assert_eq!(reply.body, "");
}

#[test]
fn unknown_command_echoes_the_body() {
    let mut mc = Minecraft::new();
    let reply = run_command(&mut mc, 1, "foobar");
    assert_eq!(
        reply.body,
        "Unknown or incomplete command, see below for errorfoobar<--[HERE]"
    );
}

#[test]
fn near_miss_commands_are_unknown() {
    let mut mc = Minecraft::new();
    let reply = run_command(&mut mc, 1, "whitelist");
    assert_eq!(
        reply.body,
        "Unknown or incomplete command, see below for errorwhitelist<--[HERE]"
    );
    let reply = run_command(&mut mc, 2, "whitelist add");
    assert_eq!(
        reply.body,
        "Unknown or incomplete command, see below for errorwhitelist add<--[HERE]"
    );
    let reply = run_command(&mut mc, 3, "LIST");
    assert_eq!(
        reply.body,
        "Unknown or incomplete command, see below for errorLIST<--[HERE]"
    );
}

#[test]
fn add_with_empty_name_still_asks_the_directory() {
    let mut mc = Minecraft::new();
    let pending = expect_pending(
        mc.handle_rcon_packet(request(2, RconPacketType::ExecCommand, "whitelist add ")),
    );
    assert_eq!(pending.action, WhitelistAction::Add);
    assert_eq!(pending.raw_name, "");
    let reply = mc.apply_resolution(pending, None);
    assert_eq!(reply.body, "That player does not exist");
}

#[test]
fn exec_commands_work_before_any_auth() {
    let mut mc = Minecraft::new();
    let reply = run_command(&mut mc, 9, "list");
    assert_eq!(reply.body, "There are 0 of a max of 20 players online: ");
}
