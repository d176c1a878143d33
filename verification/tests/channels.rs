use task_manager::messages::{NewTaskRequest, WebSocketMessage, WsEvent};
use task_manager::registry::TaskManagerState;

fn request(title: &str) -> NewTaskRequest {
    NewTaskRequest { title: title.to_string(), description: String::new(), assigned_to: None }
}

fn subscribe(client: &str) -> WsEvent {
    WsEvent::Binary(Some(WebSocketMessage::Subscribe { client_id: client.to_string() }))
}

fn channels(state: &TaskManagerState, payload: &[u8]) -> Vec<u32> {
    let pushes = state.broadcast_task_update(&payload.to_vec());
    for push in &pushes {
        assert_eq!(push.payload, payload);
    }
    let mut ids: Vec<u32> = pushes.iter().map(|p| p.channel_id).collect();
    ids.sort();
    ids
}

#[test]
fn subscriber_hears_of_a_task_created_afterwards() {
    let mut state = TaskManagerState::new();
    assert!(channels(&state, b"{}").is_empty());
    state.handle_websocket(7, subscribe("ann"), true);
    let task = state.create_task(request("A"), 1).unwrap();
    let payload = format!("{{\"id\":\"{}\"}}", task.id).into_bytes();
    let pushes = state.broadcast_task_update(&payload);
    assert_eq!(pushes.len(), 1);
    assert_eq!(pushes[0].channel_id, 7);
    assert_eq!(pushes[0].payload, payload);
}

#[test]
fn unsubscribed_channel_hears_nothing() {
    let mut state = TaskManagerState::new();
    state.handle_websocket(7, subscribe("ann"), true);
    state.handle_websocket(8, subscribe("bob"), true);
    state.handle_websocket(7, WsEvent::Binary(Some(WebSocketMessage::Unsubscribe)), true);
    state.create_task(request("A"), 1).unwrap();
    assert_eq!(channels(&state, b"task"), vec![8]);
}

#[test]
fn every_subscriber_gets_one_push() {
    let mut state = TaskManagerState::new();
    for channel in [3u32, 1, 4, 15, 9, 2, 6] {
        state.subscribe(channel, format!("client-{}", channel), false);
    }
    assert_eq!(channels(&state, b"payload"), vec![1, 2, 3, 4, 6, 9, 15]);
}

#[test]
fn subscription_is_answered_with_the_full_list() {
    let mut state = TaskManagerState::new();
    state.create_task_with_id("a".to_string(), request("A"), 1).unwrap();
    state.create_task_with_id("b".to_string(), request("B"), 2).unwrap();
    let sync = state.handle_websocket(7, subscribe("ann"), true).unwrap();
    let ids: Vec<&str> = sync.iter().map(|t| t.id.as_str()).collect();
    assert_eq!(ids, vec!["a", "b"]);
    assert_eq!(state.request_count(), 3);
    assert_eq!(state.connections(), vec![(7, "ann".to_string())]);
}

#[test]
fn subscription_without_a_server_is_entered_but_not_answered() {
    let mut state = TaskManagerState::new();
    state.create_task_with_id("a".to_string(), request("A"), 1).unwrap();
    assert!(state.handle_websocket(7, subscribe("ann"), false).is_none());
    assert_eq!(state.request_count(), 1);
    assert_eq!(state.connections(), vec![(7, "ann".to_string())]);
}

#[test]
fn subscribing_again_replaces_the_client() {
    let mut state = TaskManagerState::new();
    state.subscribe(7, "ann".to_string(), false);
    state.subscribe(7, "ann".to_string(), false);
    assert_eq!(state.connections(), vec![(7, "ann".to_string())]);
    state.subscribe(7, "bob".to_string(), false);
    assert_eq!(state.connections(), vec![(7, "bob".to_string())]);
}

#[test]
fn one_client_may_hold_several_channels() {
    let mut state = TaskManagerState::new();
    state.subscribe(1, "ann".to_string(), false);
    state.subscribe(2, "ann".to_string(), false);
    let mut connections = state.connections();
    connections.sort();
    assert_eq!(connections, vec![(1, "ann".to_string()), (2, "ann".to_string())]);
}

#[test]
fn unsubscribing_an_absent_channel_is_no_failure() {
    let mut state = TaskManagerState::new();
    state.unsubscribe(7);
    state.subscribe(1, "ann".to_string(), false);
    state.unsubscribe(7);
    state.unsubscribe(1);
    state.unsubscribe(1);
    assert!(state.connections().is_empty());
}

#[test]
fn closed_connection_leaves_the_directory() {
    let mut state = TaskManagerState::new();
    state.handle_websocket(7, subscribe("ann"), true);
    assert!(state.handle_websocket(7, WsEvent::Close, true).is_none());
    assert!(state.connections().is_empty());
    assert!(channels(&state, b"x").is_empty());
}

#[test]
fn malformed_and_other_frames_change_nothing() {
    let mut state = TaskManagerState::new();
    state.handle_websocket(7, subscribe("ann"), false);
    assert!(state.handle_websocket(7, WsEvent::Binary(None), true).is_none());
    assert!(state.handle_websocket(7, WsEvent::Other, true).is_none());
    assert!(state.handle_websocket(8, WsEvent::Binary(None), true).is_none());
    assert_eq!(state.connections(), vec![(7, "ann".to_string())]);
    assert_eq!(state.request_count(), 0);
    assert!(state.tasks().is_empty());
}
