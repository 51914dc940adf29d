use guildstore::tickets_service::TicketsService;

#[test]
fn ticket_history_empty_lists_empty_and_latest_is_not_found() {
    let service = TicketsService::new();
    assert!(service.get_tickets(1, 2).is_empty());
    assert!(service.get_ticket(1, 2).unwrap_err().is_not_found());
}

#[test]
fn created_tickets_list_in_creation_order() {
    let mut service = TicketsService::new();
    assert!(service.create_ticket(1, 20, "t1".to_string(), "first".to_string()).is_ok());
    assert!(service.create_ticket(1, 20, "t2".to_string(), "second".to_string()).is_ok());
    assert!(service.create_ticket(1, 20, "t3".to_string(), "third".to_string()).is_ok());
    let tickets = service.get_tickets(1, 20);
    assert_eq!(tickets.len(), 3);
    assert_eq!(tickets[0].title, "t1");
    assert_eq!(tickets[1].title, "t2");
    assert_eq!(tickets[2].title, "t3");
    assert_eq!(tickets[0].info, "first");
    assert!(tickets[0].created_at < tickets[1].created_at);
    assert!(tickets[1].created_at < tickets[2].created_at);
}

#[test]
fn listing_is_capped_at_five_most_recent() {
    let mut service = TicketsService::new();
    for n in 1..=7 {
        let title = format!("ticket {}", n);
        assert!(service.create_ticket(5, 50, title, "body".to_string()).is_ok());
    }
    let tickets = service.get_tickets(5, 50);
    assert_eq!(tickets.len(), 5);
    assert_eq!(tickets[0].title, "ticket 3");
    assert_eq!(tickets[4].title, "ticket 7");
    for pair in tickets.windows(2) {
        assert!(pair[0].created_at < pair[1].created_at);
    }
}

#[test]
fn latest_ticket_is_the_most_recent_one() {
    let mut service = TicketsService::new();
    assert!(service.create_ticket(1, 20, "old".to_string(), "o".to_string()).is_ok());
    assert!(service.create_ticket(1, 20, "new".to_string(), "n".to_string()).is_ok());
    let latest = service.get_ticket(1, 20).unwrap();
    assert_eq!(latest.title, "new");
    assert_eq!(latest.created_at, 1);
}

#[test]
fn ticket_delete_latest_removes_exactly_the_newest() {
    let mut service = TicketsService::new();
    assert!(service.create_ticket(1, 20, "first".to_string(), "a".to_string()).is_ok());
    assert!(service.create_ticket(1, 20, "second".to_string(), "b".to_string()).is_ok());
    assert!(service.delete_ticket(1, 20).is_ok());
    let tickets = service.get_tickets(1, 20);
    assert_eq!(tickets.len(), 1);
    assert_eq!(tickets[0].title, "first");
}

#[test]
fn ticket_delete_latest_on_empty_history_is_not_found_and_changes_nothing() {
    let mut service = TicketsService::new();
    assert!(service.create_ticket(1, 20, "kept".to_string(), "k".to_string()).is_ok());
    let err = service.delete_ticket(2, 20).unwrap_err();
    assert!(err.is_not_found());
    let tickets = service.get_tickets(1, 20);
    assert_eq!(tickets.len(), 1);
    assert_eq!(tickets[0].title, "kept");
}

#[test]
fn histories_of_different_authors_are_independent() {
    let mut service = TicketsService::new();
    assert!(service.create_ticket(1, 20, "a".to_string(), "x".to_string()).is_ok());
    assert!(service.create_ticket(1, 21, "b".to_string(), "y".to_string()).is_ok());
    assert!(service.delete_ticket(1, 20).is_ok());
    let other = service.get_tickets(1, 21);
    assert_eq!(other.len(), 1);
    assert_eq!(other[0].title, "b");
    assert!(service.get_tickets(1, 20).is_empty());
}
