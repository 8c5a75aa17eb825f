use hub_tool::{command_for_key, Browser, Command, Key};

fn three() -> Browser {
    Browser::new(vec!["alpine".to_string(), "busybox".to_string(), "nginx".to_string()])
}

#[test]
fn move_up_at_first_entry_stays() {
    let mut b = three();
    assert_eq!(b.selected(), Some(0));
    b.select_previous();
    assert_eq!(b.selected(), Some(0));
}

#[test]
fn move_down_at_last_entry_stays() {
    let mut b = three();
    b.select_next();
    b.select_next();
    assert_eq!(b.selected(), Some(2));
    b.select_next();
    assert_eq!(b.selected(), Some(2));
    b.select_previous();
    assert_eq!(b.selected(), Some(1));
}

#[test]
fn moves_on_an_empty_list_stay_at_the_start() {
    let mut b = Browser::new(vec![]);
    b.select_next();
    assert_eq!(b.selected(), Some(0));
    b.select_previous();
    assert_eq!(b.selected(), Some(0));
    assert_eq!(b.display_info(), None);
    assert!(!b.item_enter());
}

#[test]
fn keys_map_to_commands() {
    assert_eq!(command_for_key(Key::Char('q')), Some(Command::Quit));
    assert_eq!(command_for_key(Key::Esc), Some(Command::Quit));
    assert_eq!(command_for_key(Key::Char('j')), Some(Command::Next));
    assert_eq!(command_for_key(Key::Down), Some(Command::Next));
    assert_eq!(command_for_key(Key::Char('k')), Some(Command::Previous));
    assert_eq!(command_for_key(Key::Up), Some(Command::Previous));
    assert_eq!(command_for_key(Key::Enter), Some(Command::Show));
    assert_eq!(command_for_key(Key::Char('x')), None);
    assert_eq!(command_for_key(Key::Other), None);
}

#[test]
fn keys_drive_the_browser() {
    let mut b = three();
    assert_eq!(b.handle_key(Key::Down), None);
    assert_eq!(b.handle_key(Key::Char('j')), None);
    assert_eq!(b.selected(), Some(2));
    assert_eq!(b.handle_key(Key::Char('k')), None);
    assert_eq!(b.selected(), Some(1));
    assert_eq!(b.handle_key(Key::Enter), Some(1));
    assert!(b.item_enter());
    assert_eq!(b.handle_key(Key::Char('x')), None);
    assert!(!b.should_quit());
    assert_eq!(b.handle_key(Key::Esc), None);
    assert!(b.should_quit());
}

#[test]
fn details_are_kept_with_their_entry() {
    let mut b = three();
    b.select_next();
    assert_eq!(b.display_info(), Some(1));
    b.set_info(1, "{\"os/arch\":\"linux/amd64\"}".to_string());
    b.set_info(7, "ignored".to_string());
    let items = b.items();
    assert_eq!(items.len(), 3);
    assert_eq!(items[1].url, "busybox");
    assert_eq!(items[1].info.as_deref(), Some("{\"os/arch\":\"linux/amd64\"}"));
    assert_eq!(items[0].info, None);
    assert_eq!(items[2].info, None);
    assert_eq!(items[0].url, "alpine");
}
