//! What holds of the matchmaker's state machine, proved once for all
//! states: every transition keeps the state valid.

use vstd::prelude::*;

use super::manager_state::{count_playing, without, ManagerState};
use super::room_state::{lemma_join_keeps_session_valid, lemma_round_steps_keep_session_valid, RoomState};
use crate::domain::game::{GameConfig, GameStatus, PlayerMove};
use crate::domain::messages::{BroadcastView, ServerEvent};

verus! {

/// Taking an identifier out of a list leaves exactly the others, in order
/// and as often as before.
pub proof fn lemma_without(ids: Seq<Seq<char>>, id: Seq<char>)
    ensures
        forall|x: Seq<char>| #[trigger] without(ids, id).contains(x) <==> ids.contains(x) && x != id,
        ids.no_duplicates() ==> without(ids, id).no_duplicates(),
        !ids.contains(id) ==> without(ids, id) == ids,
        without(ids, id).len() <= ids.len(),
    decreases ids.len(),
{
    if ids.len() > 0 {
        let front = ids.drop_last();
        let last = ids.last();
        lemma_without(front, id);
        let rest = without(front, id);
        let out = without(ids, id);
        assert forall|x: Seq<char>| #[trigger] out.contains(x) <==> ids.contains(x) && x != id by {
            if out.contains(x) {
                let k = choose|k: int| 0 <= k < out.len() && out[k] == x;
                if last == id || k < out.len() - 1 {
                    assert(rest.contains(x));
                    let m = choose|m: int| 0 <= m < front.len() && front[m] == x;
                    assert(ids[m] == x);
                }
            }
            if ids.contains(x) && x != id {
                let m = choose|m: int| 0 <= m < ids.len() && ids[m] == x;
                if m == ids.len() - 1 {
                    assert(out[out.len() - 1] == x);
                } else {
                    assert(front[m] == x);
                    assert(rest.contains(x));
                    let k = choose|k: int| 0 <= k < rest.len() && rest[k] == x;
                    assert(out[k] == x);
                }
            }
        }
        if ids.no_duplicates() {
            if last != id {
                assert forall|i: int, j: int| 0 <= i < out.len() && 0 <= j < out.len() && i != j implies out[i]
                    != out[j] by {
                    if i == out.len() - 1 || j == out.len() - 1 {
                        let k = if i == out.len() - 1 { j } else { i };
                        assert(rest.contains(out[k]));
                        assert(front.contains(out[k]));
                    }
                }
            }
        }
        if !ids.contains(id) {
            assert(!front.contains(id)) by {
                if front.contains(id) {
                    let m = choose|m: int| 0 <= m < front.len() && front[m] == id;
                    assert(ids[m] == id);
                }
            }
        }
    }
}

/// Under distinct identifiers a session is found at its own place.
pub proof fn lemma_room_index(s: ManagerState, i: int)
    requires
        forall|a: int, b: int|
            0 <= a < b < s.rooms.len() ==> (#[trigger] s.rooms[a]).id != (#[trigger] s.rooms[b]).id,
        0 <= i < s.rooms.len(),
    ensures
        s.room_id_taken(s.rooms[i].id),
        s.room_index(s.rooms[i].id) == i,
{
    let j = s.room_index(s.rooms[i].id);
    assert(s.rooms[j].id == s.rooms[i].id);
}

/// A registered participant sits in a session on the register, one of its
/// two participants, and that session goes by the identifier the
/// participant is registered for.
pub proof fn lemma_seat(s: ManagerState, player: Seq<char>)
    requires
        s.inv(),
        s.is_registered(player),
    ensures
        0 <= s.seat(player) < s.rooms.len(),
        s.rooms[s.seat(player)].id == s.player_rooms[player],
        s.room_ok(s.seat(player)),
        s.rooms[s.seat(player)].players.contains(player),
        player == s.rooms[s.seat(player)].players[0] || player == s.rooms[s.seat(player)].players[1],
{
    let i = s.seat(player);
    assert(s.room_ok(i));
    let room = s.rooms[i];
    let k = choose|k: int| 0 <= k < room.players.len() && room.players[k] == player;
    assert(k == 0 || k == 1);
}

/// The participants of a registered session are registered nowhere else:
/// whoever is registered for a session is one of its two participants.
pub proof fn lemma_registered_for_room(s: ManagerState, i: int, player: Seq<char>)
    requires
        s.inv(),
        0 <= i < s.rooms.len(),
        s.is_registered(player),
    ensures
        s.player_rooms[player] == s.rooms[i].id <==> s.rooms[i].players.contains(player),
        s.rooms[i].players.contains(player) <==> s.seat(player) == i,
{
    lemma_seat(s, player);
    lemma_room_index(s, i);
    assert(s.room_ok(i));
    let room = s.rooms[i];
    if room.players.contains(player) {
        let k = choose|k: int| 0 <= k < room.players.len() && room.players[k] == player;
        assert(k == 0 || k == 1);
    }
}

/// In a valid matchmaker a participant is registered if and only if it is
/// in a registered session, and then in exactly one; and nobody waits while
/// registered.
pub proof fn lemma_registered_iff_in_one_session(s: ManagerState, player: Seq<char>)
    requires
        s.inv(),
    ensures
        s.is_registered(player) <==> exists|i: int|
            0 <= i < s.rooms.len() && (#[trigger] s.rooms[i]).players.contains(player),
        forall|i: int, j: int|
            0 <= i < s.rooms.len() && 0 <= j < s.rooms.len() && (#[trigger] s.rooms[i]).players.contains(
                player,
            ) && (#[trigger] s.rooms[j]).players.contains(player) ==> i == j,
        !(s.is_waiting(player) && s.is_registered(player)),
{
    if s.is_registered(player) {
        lemma_seat(s, player);
    }
    assert forall|i: int|
        0 <= i < s.rooms.len() && (#[trigger] s.rooms[i]).players.contains(
            player,
        ) implies s.is_registered(player) && s.seat(player) == i by {
        assert(s.room_ok(i));
        let room = s.rooms[i];
        let k = choose|k: int| 0 <= k < room.players.len() && room.players[k] == player;
        assert(k == 0 || k == 1);
        lemma_room_index(s, i);
    }
    if s.is_waiting(player) {
        let k = choose|k: int| 0 <= k < s.waiting.len() && s.waiting[k] == player;
        assert(!s.player_rooms.contains_key(s.waiting[k]));
    }
}

/// A matchmaker that starts under a configuration that seats a pair is
/// valid.
pub proof fn lemma_created_manager_is_valid(config: GameConfig)
    requires
        config.seats_a_pair(),
    ensures
        ManagerState::created(config).inv(),
        ManagerState::created(config).stats() == (0nat, 0nat, 0nat),
{
}

/// The session that a request creates holds the one who waited longest and
/// the one who asked, in this order, with no points, in the first round, and
/// it is playing.
pub proof fn lemma_new_room(s: ManagerState, player: Seq<char>, room_id: Seq<char>)
    requires
        s.config.seats_a_pair(),
        s.waiting.len() > 0,
    ensures
        s.new_room(player, room_id).id == room_id,
        s.new_room(player, room_id).players == seq![s.waiting[0], player],
        s.new_room(player, room_id).status == GameStatus::Playing,
        s.new_room(player, room_id).current_round == 1,
        s.new_room(player, room_id).config == s.config,
        s.new_room(player, room_id).moves == Map::<Seq<char>, PlayerMove>::empty(),
        s.new_room(player, room_id).scores == Map::<Seq<char>, u32>::empty().insert(
            s.waiting[0],
            0,
        ).insert(player, 0),
        s.new_room(player, room_id).inv(),
{
    let empty = RoomState::created(room_id, s.config);
    let one = empty.joined(s.waiting[0]);
    lemma_join_keeps_session_valid(empty, s.waiting[0]);
    lemma_join_keeps_session_valid(one, player);
}

/// Asking for a match keeps the matchmaker valid.
pub proof fn lemma_find_match_keeps_manager_valid(
    s: ManagerState,
    player: Seq<char>,
    room_id: Seq<char>,
)
    requires
        s.inv(),
    ensures
        s.after_find_match(player, room_id).inv(),
{
    let t = s.after_find_match(player, room_id);
    if s.pairs_up(player, room_id) {
        let n = s.rooms.len() as int;
        let first = s.waiting[0];
        lemma_new_room(s, player, room_id);
        assert forall|i: int| 0 <= i < t.rooms.len() implies #[trigger] t.room_ok(i) by {
            if i < n {
                assert(s.room_ok(i));
            }
        }
        assert forall|p: Seq<char>| #[trigger] t.player_rooms.contains_key(p) implies t.room_id_taken(
            t.player_rooms[p],
        ) && t.rooms[t.seat(p)].players.contains(p) by {
            if p == player || p == first {
                lemma_room_index(t, n);
            } else {
                lemma_seat(s, p);
                let k = s.seat(p);
                lemma_room_index(t, k);
            }
        }
    } else if s.enqueues(player, room_id) {
        assert forall|i: int| 0 <= i < t.rooms.len() implies #[trigger] t.room_ok(i) by {
            assert(s.room_ok(i));
        }
        assert forall|p: Seq<char>| #[trigger] t.player_rooms.contains_key(p) implies t.room_id_taken(
            t.player_rooms[p],
        ) && t.rooms[t.seat(p)].players.contains(p) by {
            lemma_seat(s, p);
        }
    }
}

/// Taking a session off the register, together with the registration of
/// its two participants, keeps the matchmaker valid.
pub proof fn lemma_without_room_keeps_manager_valid(s: ManagerState, i: int)
    requires
        s.inv(),
        0 <= i < s.rooms.len(),
    ensures
        s.without_room(i).inv(),
        !s.without_room(i).room_id_taken(s.rooms[i].id),
        !s.without_room(i).is_registered(s.rooms[i].players[0]),
        !s.without_room(i).is_registered(s.rooms[i].players[1]),
        forall|p: Seq<char>|
            s.is_registered(p) && !s.rooms[i].players.contains(p)
                ==> #[trigger] s.without_room(i).is_registered(p),
{
    let t = s.without_room(i);
    let gone = s.rooms[i];
    assert(s.room_ok(i));
    assert forall|a: int| 0 <= a < t.rooms.len() implies #[trigger] t.room_ok(a) by {
        let a2 = if a < i { a } else { a + 1 };
        assert(s.room_ok(a2));
    }
    assert forall|p: Seq<char>| #[trigger] t.player_rooms.contains_key(p) implies t.room_id_taken(
        t.player_rooms[p],
    ) && t.rooms[t.seat(p)].players.contains(p) by {
        lemma_seat(s, p);
        lemma_registered_for_room(s, i, p);
        let k = s.seat(p);
        let k2 = if k < i { k } else { k - 1 };
        lemma_room_index(t, k2);
    }
}

/// Submitting a move keeps the matchmaker valid.
pub proof fn lemma_move_keeps_manager_valid(s: ManagerState, player: Seq<char>, mv: PlayerMove)
    requires
        s.inv(),
    ensures
        s.after_move(player, mv).inv(),
{
    let t = s.after_move(player, mv);
    if s.is_registered(player) {
        lemma_seat(s, player);
        let i = s.seat(player);
        let before = s.rooms[i];
        let room = s.room_with_move(player, mv);
        lemma_round_steps_keep_session_valid(before, player, mv);
        if s.completes_match(player, mv) {
            lemma_without_room_keeps_manager_valid(s, i);
        } else {
            if s.completes_round(player, mv) {
                lemma_round_steps_keep_session_valid(room, player, mv);
            }
            assert forall|a: int| 0 <= a < t.rooms.len() implies #[trigger] t.room_ok(a) by {
                assert(s.room_ok(a));
            }
            assert forall|p: Seq<char>| #[trigger] t.player_rooms.contains_key(p) implies t.room_id_taken(
                t.player_rooms[p],
            ) && t.rooms[t.seat(p)].players.contains(p) by {
                lemma_seat(s, p);
                let k = s.seat(p);
                lemma_room_index(t, k);
            }
        }
    }
}

/// A departure keeps the matchmaker valid, and it leaves nothing of the
/// one who left: not in the queue, not on the register, and the session
/// that the player was in is gone with both registrations.
pub proof fn lemma_departure_keeps_manager_valid(s: ManagerState, player: Seq<char>)
    requires
        s.inv(),
    ensures
        s.after_departure(player).inv(),
        !s.after_departure(player).is_waiting(player),
        !s.after_departure(player).is_registered(player),
        s.is_registered(player) ==> {
            let room = s.rooms[s.seat(player)];
            &&& !s.after_departure(player).room_id_taken(room.id)
            &&& !s.after_departure(player).is_registered(room.players[0])
            &&& !s.after_departure(player).is_registered(room.players[1])
            &&& s.after_departure(player).rooms.len() == s.rooms.len() - 1
        },
{
    let left = ManagerState { waiting: without(s.waiting, player), ..s };
    lemma_without(s.waiting, player);
    assert(left.inv()) by {
        assert forall|k: int| 0 <= k < left.waiting.len() implies !left.player_rooms.contains_key(
            #[trigger] left.waiting[k],
        ) by {
            assert(left.waiting.contains(left.waiting[k]));
            let m = choose|m: int| 0 <= m < s.waiting.len() && s.waiting[m] == left.waiting[k];
            assert(!s.player_rooms.contains_key(s.waiting[m]));
        }
        assert forall|i: int| 0 <= i < left.rooms.len() implies #[trigger] left.room_ok(i) by {
            assert(s.room_ok(i));
        }
        assert forall|p: Seq<char>| #[trigger] left.player_rooms.contains_key(p) implies left.room_id_taken(
            left.player_rooms[p],
        ) && left.rooms[left.seat(p)].players.contains(p) by {
            lemma_seat(s, p);
        }
    }
    if s.is_registered(player) {
        lemma_seat(s, player);
        lemma_without_room_keeps_manager_valid(left, s.seat(player));
    }
}

/// Where every session of a list is playing, all of them count as active.
pub proof fn lemma_count_playing_of_all_playing(rooms: Seq<RoomState>)
    requires
        forall|i: int| 0 <= i < rooms.len() ==> (#[trigger] rooms[i]).status == GameStatus::Playing,
    ensures
        count_playing(rooms) == rooms.len(),
    decreases rooms.len(),
{
    if rooms.len() > 0 {
        let front = rooms.drop_last();
        assert forall|i: int| 0 <= i < front.len() implies (#[trigger] front[i]).status
            == GameStatus::Playing by {
            assert(front[i] == rooms[i]);
        }
        lemma_count_playing_of_all_playing(front);
    }
}

/// In a valid matchmaker every session on the register is active: a match
/// that ends leaves the register at once.
pub proof fn lemma_every_registered_session_is_active(s: ManagerState)
    requires
        s.inv(),
    ensures
        s.stats().1 == s.stats().0,
        s.stats().0 == s.rooms.len(),
        s.stats().2 == s.waiting.len(),
{
    assert forall|i: int| 0 <= i < s.rooms.len() implies (#[trigger] s.rooms[i]).status
        == GameStatus::Playing by {
        assert(s.room_ok(i));
    }
    lemma_count_playing_of_all_playing(s.rooms);
}

/// Clearing up after the same participant twice is the same as doing it
/// once, and the second time nothing is sent.
pub proof fn lemma_departure_is_idempotent(s: ManagerState, player: Seq<char>)
    requires
        s.inv(),
    ensures
        s.after_departure(player).after_departure(player) == s.after_departure(player),
        s.after_departure(player).departure_broadcast(player) == BroadcastView::nothing(),
{
    lemma_departure_keeps_manager_valid(s, player);
    lemma_without(s.after_departure(player).waiting, player);
}

/// Word of a departure from a session goes to the one other participant of
/// that session, and to nobody else.
pub proof fn lemma_departure_notifies_the_other(s: ManagerState, player: Seq<char>)
    requires
        s.inv(),
        s.is_registered(player),
    ensures
        s.departure_broadcast(player).events == seq![ServerEvent::PlayerLeft { player_id: player }],
        s.departure_broadcast(player).recipients.len() == 1,
        s.departure_broadcast(player).recipients[0] != player,
        s.rooms[s.seat(player)].players.contains(s.departure_broadcast(player).recipients[0]),
{
    lemma_seat(s, player);
    let room = s.rooms[s.seat(player)];
    let first = room.players[0];
    assert(room.players.drop_last() =~= seq![first]);
    assert(seq![first].drop_last() =~= Seq::<Seq<char>>::empty());
    assert(without(Seq::<Seq<char>>::empty(), player) =~= Seq::<Seq<char>>::empty());
    if player == first {
        assert(without(seq![first], player) =~= Seq::<Seq<char>>::empty());
    } else {
        assert(without(seq![first], player) =~= seq![first]);
    }
}

/// The queue is served in order of arrival: whenever a request creates a
/// session, it is with the one who waited longest, and everybody else keeps
/// their place.
pub proof fn lemma_pairing_is_first_come_first_served(
    s: ManagerState,
    player: Seq<char>,
    room_id: Seq<char>,
)
    requires
        s.inv(),
        s.pairs_up(player, room_id),
    ensures
        s.after_find_match(player, room_id).is_registered(s.waiting[0]),
        s.after_find_match(player, room_id).is_registered(player),
        s.after_find_match(player, room_id).waiting == s.waiting.subrange(
            1,
            s.waiting.len() as int,
        ),
        s.after_find_match(player, room_id).rooms.last().players == seq![s.waiting[0], player],
{
    lemma_new_room(s, player, room_id);
}

} // verus!
