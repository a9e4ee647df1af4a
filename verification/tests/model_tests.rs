use tracker::model::{ModelController, Ticket, TicketForCreate};
use tracker::Error;

fn create(mc: &mut ModelController, title: &str) -> Ticket {
    mc.create_ticker(TicketForCreate { title: title.to_string() }).unwrap()
}

fn is_v4_text(id: &str) -> bool {
    let b = id.as_bytes();
    b.len() == 36
        && b.iter().enumerate().all(|(i, c)| {
            if i == 8 || i == 13 || i == 18 || i == 23 {
                *c == b'-'
            } else {
                c.is_ascii_digit() || (b'a'..=b'f').contains(c)
            }
        })
        && b[14] == b'4'
        && matches!(b[19], b'8' | b'9' | b'a' | b'b')
}

#[test]
fn new_store_lists_nothing() {
    let mc = ModelController::new().unwrap();
    assert!(mc.list_tickets().unwrap().is_empty());
}

#[test]
fn created_ticket_has_title_and_uuid_id() {
    let mut mc = ModelController::new().unwrap();
    let t = create(&mut mc, "title aaa");
    assert_eq!(t.title, "title aaa");
    assert!(is_v4_text(&t.id), "{}", t.id);
}

#[test]
fn created_tickets_get_different_ids() {
    let mut mc = ModelController::new().unwrap();
    let a = create(&mut mc, "a");
    let b = create(&mut mc, "b");
    assert_ne!(a.id, b.id);
}

#[test]
fn created_ticket_is_listed_last() {
    let mut mc = ModelController::new().unwrap();
    let a = create(&mut mc, "first");
    let b = create(&mut mc, "second");
    let listed = mc.list_tickets().unwrap();
    assert_eq!(listed.len(), 2);
    assert_eq!((listed[0].id.as_str(), listed[0].title.as_str()), (a.id.as_str(), "first"));
    assert_eq!((listed[1].id.as_str(), listed[1].title.as_str()), (b.id.as_str(), "second"));
}

#[test]
fn insert_ticket_keeps_given_id() {
    let mut mc = ModelController::new().unwrap();
    let t = mc.insert_ticket("id-1".to_string(), TicketForCreate { title: "x".to_string() });
    assert_eq!((t.id.as_str(), t.title.as_str()), ("id-1", "x"));
    let listed = mc.list_tickets().unwrap();
    assert_eq!(listed.len(), 1);
    assert_eq!(listed[0].id, "id-1");
}

#[test]
fn delete_returns_the_ticket_and_unlists_it() {
    let mut mc = ModelController::new().unwrap();
    let a = create(&mut mc, "a");
    let b = create(&mut mc, "b");
    let c = create(&mut mc, "c");
    let gone = mc.delete_ticket(b.id.clone()).unwrap();
    assert_eq!((gone.id.as_str(), gone.title.as_str()), (b.id.as_str(), "b"));
    let listed: Vec<String> = mc.list_tickets().unwrap().into_iter().map(|t| t.id).collect();
    assert_eq!(listed, vec![a.id, c.id]);
}

#[test]
fn delete_unknown_id_fails_and_keeps_store() {
    let mut mc = ModelController::new().unwrap();
    let a = create(&mut mc, "a");
    match mc.delete_ticket("no-such-id".to_string()) {
        Err(Error::TicketDeleteFailIdNotFound { id }) => assert_eq!(id, "no-such-id"),
        other => panic!("unexpected {:?}", other.map(|t| t.id)),
    }
    let listed = mc.list_tickets().unwrap();
    assert_eq!(listed.len(), 1);
    assert_eq!(listed[0].id, a.id);
}

#[test]
fn delete_twice_fails_the_second_time() {
    let mut mc = ModelController::new().unwrap();
    let a = create(&mut mc, "a");
    assert!(mc.delete_ticket(a.id.clone()).is_ok());
    assert!(matches!(
        mc.delete_ticket(a.id.clone()),
        Err(Error::TicketDeleteFailIdNotFound { .. })
    ));
}

#[test]
fn create_then_delete_restores_list() {
    let mut mc = ModelController::new().unwrap();
    let a = create(&mut mc, "a");
    let b = create(&mut mc, "b");
    let before: Vec<(String, String)> =
        mc.list_tickets().unwrap().into_iter().map(|t| (t.id, t.title)).collect();
    let c = create(&mut mc, "c");
    mc.delete_ticket(c.id).unwrap();
    let after: Vec<(String, String)> =
        mc.list_tickets().unwrap().into_iter().map(|t| (t.id, t.title)).collect();
    assert_eq!(before, after);
    assert_eq!(after, vec![(a.id, "a".to_string()), (b.id, "b".to_string())]);
}

#[test]
fn delete_takes_the_first_of_equal_ids() {
    let mut mc = ModelController::new().unwrap();
    mc.insert_ticket("dup".to_string(), TicketForCreate { title: "one".to_string() });
    mc.insert_ticket("dup".to_string(), TicketForCreate { title: "two".to_string() });
    let gone = mc.delete_ticket("dup".to_string()).unwrap();
    assert_eq!(gone.title, "one");
    let listed = mc.list_tickets().unwrap();
    assert_eq!(listed.len(), 1);
    assert_eq!(listed[0].title, "two");
}

#[test]
fn ticket_clone_keeps_fields() {
    let t = Ticket { id: "i".to_string(), title: "t".to_string() };
    let c = t.clone();
    assert_eq!((c.id.as_str(), c.title.as_str()), ("i", "t"));
}
