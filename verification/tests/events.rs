use fe::events::{DroppedFile, Event, EventPool, EventType, InputSnapshot, Key, Modifier};
use fe::path::FsPath;

fn input(keys: &[Key]) -> InputSnapshot {
    InputSnapshot {
        keys_pressed: keys.to_vec(),
        alt: false,
        ctrl: false,
        shift: false,
        mac_cmd: false,
        command: false,
        dropped_files: Vec::new(),
        pointer_released: false,
    }
}

#[test]
fn a_new_pool_holds_no_events() {
    let pool = EventPool::new();
    assert!(pool.get_events().is_empty());
    assert!(!pool.get_event(&EventType::NewFile));
}

#[test]
fn an_emitted_event_is_seen_at_once() {
    let mut pool = EventPool::new();
    pool.emit_event(EventType::NewFile);
    pool.emit_event(EventType::ReloadDir);
    assert!(pool.get_event(&EventType::NewFile));
    assert!(pool.get_event(&EventType::ReloadDir));
    assert!(!pool.get_event(&EventType::DirGoBack));
    assert_eq!(pool.get_events(), vec![EventType::NewFile, EventType::ReloadDir]);
    // Looking does not take.
    assert_eq!(pool.get_events().len(), 2);
}

#[test]
fn a_scheduled_event_waits_for_the_next_frame() {
    let mut pool = EventPool::new();
    pool.emit_event(EventType::NewFile);
    pool.schedule_event(EventType::DirGoBack);
    assert!(!pool.get_event(&EventType::DirGoBack));
    assert_eq!(pool.drain(), vec![EventType::NewFile]);
    assert!(pool.drain().is_empty());
    pool.flush_events();
    assert!(pool.get_event(&EventType::DirGoBack));
    assert_eq!(pool.drain(), vec![EventType::DirGoBack]);
    pool.flush_events();
    assert!(pool.drain().is_empty());
}

#[test]
fn a_flush_drops_what_was_not_handled() {
    let mut pool = EventPool::new();
    pool.emit_event(EventType::NewFile);
    pool.schedule_event(EventType::ReloadDir);
    pool.schedule_event(EventType::Quit);
    pool.flush_events();
    assert_eq!(pool.get_events(), vec![EventType::ReloadDir, EventType::Quit]);
}

#[test]
fn default_bindings_fire_with_the_command_key() {
    let cases = [
        (Key::L, EventType::FocusPathBar),
        (Key::F, EventType::FocusSearchBar),
        (Key::O, EventType::DirGoBack),
        (Key::B, EventType::FavoriteCurrentPath),
        (Key::N, EventType::NewFile),
        (Key::R, EventType::ReloadDir),
    ];
    for (key, event) in cases {
        let mut pool = EventPool::new();
        let mut held = input(&[key]);
        held.command = true;
        pool.emit_input_events(&held);
        assert_eq!(pool.get_events(), vec![event]);

        let mut pool = EventPool::new();
        pool.emit_input_events(&input(&[key]));
        assert!(pool.get_events().is_empty());

        let mut pool = EventPool::new();
        let mut wrong = input(&[key]);
        wrong.ctrl = true;
        wrong.alt = true;
        wrong.shift = true;
        wrong.mac_cmd = true;
        pool.emit_input_events(&wrong);
        assert!(pool.get_events().is_empty());
    }
}

#[test]
fn fired_events_come_behind_those_already_emitted() {
    let mut pool = EventPool::new();
    pool.emit_event(EventType::Quit);
    let mut held = input(&[Key::R, Key::F, Key::Z, Key::L]);
    held.command = true;
    pool.emit_input_events(&held);
    assert_eq!(
        pool.get_events(),
        vec![
            EventType::Quit,
            EventType::FocusPathBar,
            EventType::FocusSearchBar,
            EventType::ReloadDir
        ]
    );
}

#[test]
fn a_binding_needs_all_its_keys_and_all_its_modifiers() {
    let chord = Event {
        event: EventType::Quit,
        modifiers: vec![Modifier::Ctrl, Modifier::Shift],
        key: vec![Key::Q, Key::W],
    };
    let mut all = input(&[Key::W, Key::A, Key::Q]);
    all.ctrl = true;
    all.shift = true;
    assert!(chord.fires(&all));

    let mut one_key = input(&[Key::Q]);
    one_key.ctrl = true;
    one_key.shift = true;
    assert!(!chord.fires(&one_key));

    let mut one_modifier = input(&[Key::Q, Key::W]);
    one_modifier.ctrl = true;
    assert!(!chord.fires(&one_modifier));

    let mut others = input(&[Key::Q, Key::W]);
    others.alt = true;
    others.command = true;
    others.mac_cmd = true;
    assert!(!chord.fires(&others));

    let mut pool = EventPool::with_bindings(vec![chord]);
    pool.emit_input_events(&one_key);
    assert!(pool.get_events().is_empty());
    pool.emit_input_events(&all);
    assert_eq!(pool.get_events(), vec![EventType::Quit]);
}

#[test]
fn a_binding_without_keys_or_modifiers_always_fires() {
    let always = Event { event: EventType::ReloadDir, modifiers: Vec::new(), key: Vec::new() };
    assert!(always.fires(&input(&[])));
}

#[test]
fn each_modifier_is_read_from_its_own_flag() {
    let flags: [(Modifier, fn(&mut InputSnapshot)); 5] = [
        (Modifier::Alt, |i| i.alt = true),
        (Modifier::Ctrl, |i| i.ctrl = true),
        (Modifier::Shift, |i| i.shift = true),
        (Modifier::MacCmd, |i| i.mac_cmd = true),
        (Modifier::Cmd, |i| i.command = true),
    ];
    for (modifier, set) in flags {
        let mut held = input(&[]);
        assert!(!held.modifier_held(modifier));
        set(&mut held);
        assert!(held.modifier_held(modifier));
        for (other, _) in flags {
            assert_eq!(held.modifier_held(other), other == modifier);
        }
    }
    assert!(input(&[Key::A]).key_pressed(Key::A));
    assert!(!input(&[Key::A]).key_pressed(Key::B));
}

#[test]
fn events_are_equal_by_value() {
    let p = FsPath::new(b"/".to_vec(), vec![b"a".to_vec()]);
    let q = FsPath::new(b"/".to_vec(), vec![b"b".to_vec()]);
    assert!(EventType::SetPath(p.clone()).same_as(&EventType::SetPath(p.clone())));
    assert!(!EventType::SetPath(p.clone()).same_as(&EventType::SetPath(q.clone())));
    assert!(!EventType::SetPath(p.clone()).same_as(&EventType::Exec(p.clone())));
    let dropped = vec![DroppedFile { path: Some(p.clone()) }, DroppedFile { path: None }];
    let moved = EventType::MoveFile(1, dropped.clone());
    assert!(moved.same_as(&moved.clone()));
    assert!(!moved.same_as(&EventType::MoveFile(2, dropped)));
    assert!(!moved.same_as(&EventType::MoveFile(1, vec![DroppedFile { path: Some(q) }])));
    assert_eq!(moved.clone(), moved);
}
