//! Finding tickets in whatever people paste.

use iroh_drop_core::ticket::{app_link, extract_ticket, ticket_from_text, web_link};

const TICKET: &str = "drop2aimfofis3yfxv6oqyama7hct5hgil7ozmrwh4u7ryd6ihbtadeesuaitapjhbfsnoh";

const FIRST: &str = "drop1aimfofis3yfxv6oqyama7hct5hgil7ozmrwh4u7ryd6ihbtadeesuaitapjhbfsnoh";

#[test]
fn reads_every_shape_a_person_might_paste() {
    for input in [
        TICKET.to_string(),
        format!("iroh-drop://receive/{TICKET}"),
        format!("https://drop.example/#{TICKET}"),
        format!("here you go: iroh-drop://receive/{TICKET}\n"),
        format!("<{TICKET}>"),
    ] {
        assert_eq!(ticket_from_text(&input), Some(TICKET), "failed on {input:?}");
    }
}

#[test]
fn rejects_near_misses() {
    assert_eq!(ticket_from_text(""), None);
    assert_eq!(ticket_from_text("iroh-drop://receive/"), None);
    assert_eq!(ticket_from_text("drop2short"), None);
    assert_eq!(ticket_from_text("drop1short"), None);
}

#[test]
fn ticket_extraction_matches_cli_semantics() {
    let bare = "drop2aimfofis3yfxv6oqyama7tbogzvqj2fkxfgrqkcpjnnrgsj5q";
    assert_eq!(ticket_from_text(bare), Some(bare));
    assert_eq!(
        ticket_from_text(&format!("iroh-drop://receive/{bare}")),
        Some(bare)
    );
    assert_eq!(
        ticket_from_text(&format!("open https://iroh-drop.boxd.sh/#{bare} please")),
        Some(bare)
    );
    assert_eq!(ticket_from_text("drop2short"), None);
    assert_eq!(ticket_from_text("no ticket here"), None);
}

#[test]
fn accepts_a_bare_ticket() {
    assert_eq!(extract_ticket(FIRST).as_deref(), Some(FIRST));
}

#[test]
fn accepts_the_fragment_link() {
    let link = format!("https://drop.example/#{FIRST}");
    assert_eq!(extract_ticket(&link).as_deref(), Some(FIRST));
}

#[test]
fn survives_being_pasted_out_of_a_chat_app() {
    // What a paste actually looks like: quotes, chatter, a trailing newline.
    let pasted = format!("  Chad: here you go — {FIRST}\n");
    assert_eq!(extract_ticket(&pasted).as_deref(), Some(FIRST));
}

#[test]
fn stops_at_punctuation_so_a_trailing_period_is_not_swallowed() {
    let sentence = format!("{FIRST}. thanks!");
    assert_eq!(extract_ticket(&sentence).as_deref(), Some(FIRST));
}

#[test]
fn rejects_things_that_are_not_tickets() {
    assert!(extract_ticket("").is_none());
    assert!(extract_ticket("hello").is_none());
    // A prefix alone is a typo, not a capability.
    assert!(extract_ticket("drop1").is_none());
    assert!(extract_ticket("drop1abc").is_none());
}

#[test]
fn links_give_their_ticket_back() {
    assert_eq!(app_link(FIRST), format!("iroh-drop://receive/{FIRST}"));
    assert_eq!(extract_ticket(&app_link(FIRST)).as_deref(), Some(FIRST));
    let web = web_link("https://drop.example//", TICKET);
    assert_eq!(web, format!("https://drop.example/#{TICKET}"));
    assert_eq!(ticket_from_text(&web), Some(TICKET));
}
