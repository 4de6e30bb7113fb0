use game_sync::client::{ClientEffect, ClientSync};
use game_sync::components::Vector2;
use game_sync::messages::{Outbound, ServerMessagePayload};
use game_sync::server::ServerSync;
use game_sync::spawn::{Count, Rect, SpawnAction, SpawnActions, SpawnScheduler, SpawnType};

fn destroyed_to(outbox: &[Outbound], to: u64, id: u64) -> bool {
    outbox.iter().any(|o| {
        o.to == to
            && o.reliable
            && matches!(o.payload, ServerMessagePayload::EntityDestroyed { id: i } if i == id)
    })
}

#[test]
fn disconnected_player_is_destroyed_for_remaining_connections() {
    let mut server = ServerSync::new();
    server.on_connect(1, 0, 0);
    server.on_connect(2, 0, 0);
    server.on_connect(3, 0, 0);
    let ids = server.start_game(&vec![(1, 100), (2, 200), (3, 300)]);
    assert_eq!(ids, vec![0, 1, 2]);
    assert_eq!(server.outbox.len(), 3);
    assert!(matches!(&server.outbox[0].payload, ServerMessagePayload::StartGame(v) if *v == vec![0, 1, 2]));
    server.connections.on_ping(2, 800);
    server.connections.on_ping(3, 800);
    let (gone, released) = server.sweep(1000, 500);
    assert_eq!(gone, vec![1]);
    assert_eq!(released.len(), 1);
    assert_eq!(released[0].connection, 1);
    assert_eq!(released[0].entity, 0);
    assert_eq!(released[0].local, Some(100));
    // one StartGame per connection, then one removal per remaining connection
    assert_eq!(server.outbox.len(), 3 + 2);
    assert!(destroyed_to(&server.outbox, 2, 0));
    assert!(destroyed_to(&server.outbox, 3, 0));
    assert!(!destroyed_to(&server.outbox, 1, 0));
    assert_eq!(server.identities.resolve(0), None);
    assert_eq!(server.identities.resolve(1), Some(200));
    assert_eq!(server.owners.len(), 2);
}

#[test]
fn explicit_close_releases_the_player() {
    let mut server = ServerSync::new();
    server.on_connect(1, 0, 0);
    server.on_connect(2, 0, 0);
    server.start_game(&vec![(1, 100), (2, 200)]);
    let (closed, released) = server.on_close(2);
    assert_eq!(closed.map(|c| c.id), Some(2));
    assert_eq!(released.len(), 1);
    assert_eq!(released[0].local, Some(200));
    assert_eq!(server.outbox.len(), 2 + 1);
    assert!(destroyed_to(&server.outbox, 1, 1));
    assert_eq!(server.identities.resolve(1), None);
    assert_eq!(server.owners.len(), 1);
}

#[test]
fn server_messages_carry_their_delivery_class() {
    let mut server = ServerSync::new();
    server.on_connect(4, 0, 0);
    let id = server.entity_created(77, "Ghoul".to_string(), 12);
    server.entity_updated(id, Vector2::new(1, 2), Vector2::new(0, 0), 13);
    assert_eq!(server.entity_destroyed(id), Some(77));
    assert_eq!(server.outbox.len(), 3);
    assert!(server.outbox[0].reliable);
    assert!(!server.outbox[1].reliable);
    assert!(server.outbox[2].reliable);
    assert!(server.outbox.iter().all(|o| o.to == 4));
}

fn update(id: u64, x: i32, frame: u64) -> ServerMessagePayload {
    ServerMessagePayload::EntityUpdated {
        id,
        position: Vector2::new(x, 0),
        velocity: Vector2::new(0, 0),
        frame,
    }
}

fn replay(messages: Vec<ServerMessagePayload>) -> ClientSync {
    let mut client = ClientSync::new();
    for m in messages {
        client.receive(m);
    }
    client
}

#[test]
fn client_mirror_matches_server_whatever_the_update_order() {
    let mut server = ServerSync::new();
    server.on_connect(1, 0, 0);
    let a = server.entity_created(10, "Ghoul".to_string(), 1);
    let b = server.entity_created(11, "Ghoul".to_string(), 1);
    let c = server.entity_created(12, "Ghoul".to_string(), 1);
    server.entity_updated(a, Vector2::new(5, 0), Vector2::new(0, 0), 2);
    server.entity_updated(a, Vector2::new(9, 0), Vector2::new(0, 0), 3);
    server.entity_updated(b, Vector2::new(7, 0), Vector2::new(0, 0), 2);
    server.entity_destroyed(c);
    let in_order: Vec<ServerMessagePayload> =
        server.outbox.iter().map(|o| o.payload.copy()).collect();
    let mut swapped: Vec<ServerMessagePayload> = in_order.iter().map(|p| p.copy()).collect();
    swapped.swap(3, 4);
    for client in [replay(in_order), replay(swapped)] {
        assert_eq!(client.len(), 2);
        assert_eq!(client.position_of(a), Some(Vector2::new(9, 0)));
        assert_eq!(client.position_of(b), Some(Vector2::new(7, 0)));
        assert_eq!(client.position_of(c), None);
    }
}

#[test]
fn client_effects() {
    let mut client = ClientSync::new();
    let created = ServerMessagePayload::EntityCreated { id: 40, kind: "Hero".to_string(), spawn_frame: 0 };
    assert_eq!(client.receive(created), ClientEffect::Spawned(0));
    assert_eq!(client.resolve(40), Some(0));
    assert_eq!(client.receive(update(41, 1, 1)), ClientEffect::Ignored);
    assert_eq!(client.receive(update(40, 1, 5)), ClientEffect::Moved(0));
    assert_eq!(client.receive(update(40, 2, 4)), ClientEffect::Ignored);
    assert_eq!(client.position_of(40), Some(Vector2::new(1, 0)));
    let again = ServerMessagePayload::EntityCreated { id: 40, kind: "Hero".to_string(), spawn_frame: 0 };
    assert_eq!(client.receive(again), ClientEffect::Ignored);
    assert_eq!(client.receive(ServerMessagePayload::EntityDestroyed { id: 40 }), ClientEffect::Removed(0));
    assert_eq!(client.resolve(40), None);
    assert_eq!(client.receive(ServerMessagePayload::EntityDestroyed { id: 40 }), ClientEffect::Ignored);
    assert_eq!(client.receive(ServerMessagePayload::Ping), ClientEffect::Ignored);
}

#[test]
fn spawned_monsters_are_registered_and_announced() {
    let mut server = ServerSync::new();
    server.on_connect(1, 0, 0);
    server.on_connect(2, 0, 0);
    let scheduler = SpawnScheduler::new(3, 1, 10);
    let mut actions = SpawnActions(vec![SpawnAction {
        monsters: Count { entity: "Ghoul".to_string(), num: 1000 },
        spawn_type: SpawnType::Borderline,
    }]);
    let bounds = Rect { min: Vector2::new(0, 0), max: Vector2::new(100, 100) };
    let orders = scheduler.tick(&mut actions, bounds, &vec![], &vec![]);
    assert_eq!(orders.len(), 3);
    let ids = server.spawn_monsters(&orders, &vec![50, 51, 52], 7);
    assert_eq!(ids, vec![0, 1, 2]);
    assert_eq!(server.identities.resolve(2), Some(52));
    assert_eq!(server.outbox.len(), 6);
    assert!(matches!(server.outbox[2].payload, ServerMessagePayload::EntityCreated { id: 1, .. }));
    assert_eq!(server.outbox[2].to, 1);
    let created_for_2 = server
        .outbox
        .iter()
        .filter(|o| {
            o.to == 2
                && matches!(&o.payload, ServerMessagePayload::EntityCreated { kind, spawn_frame: 7, .. } if kind == "Ghoul")
        })
        .count();
    assert_eq!(created_for_2, 3);
    assert_eq!(actions.0[0].monsters.num, 997);
}

#[test]
fn client_adopts_announced_players() {
    let mut client = ClientSync::new();
    let start = ServerMessagePayload::StartGame(vec![5, 9]);
    assert_eq!(client.receive(start), ClientEffect::PlayersAdopted);
    assert_eq!(client.len(), 2);
    assert_eq!(client.resolve(5), Some(0));
    assert_eq!(client.resolve(9), Some(1));
    assert_eq!(client.receive(update(9, 3, 1)), ClientEffect::Moved(1));
    assert_eq!(client.position_of(9), Some(Vector2::new(3, 0)));
    assert_eq!(client.receive(ServerMessagePayload::EntityDestroyed { id: 5 }), ClientEffect::Removed(0));
    assert_eq!(client.resolve(5), None);
}

#[test]
fn sweep_without_timeouts_changes_nothing() {
    let mut server = ServerSync::new();
    server.on_connect(1, 0, 0);
    server.start_game(&vec![(1, 100)]);
    let (gone, released) = server.sweep(100, 500);
    assert!(gone.is_empty());
    assert!(released.is_empty());
    assert_eq!(server.outbox.len(), 1);
    assert_eq!(server.identities.resolve(0), Some(100));
}
