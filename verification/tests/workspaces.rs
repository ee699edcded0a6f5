use minibrowser::settings::{is_valid_engine, Settings, SettingsError};
use minibrowser::workspaces::{workspace_badge_script, workspace_label, CreateError, Workspaces, MAX_WORKSPACES};

#[test]
fn workspace_labels_count_up() {
    assert_eq!(workspace_label(0), "ws0");
    assert_eq!(workspace_label(11), "ws11");
    assert_eq!(workspace_label(1230), "ws1230");
}

#[test]
fn switching_wraps_around_the_ring() {
    let mut w = Workspaces::new();
    assert_eq!(w.payload(), (1, 1));
    assert!(w.switch("ws0", 1).is_none());
    let n = w.begin_create(true).unwrap();
    assert_eq!(n.label, "ws1");
    assert_eq!(n.current, "ws0");
    assert_eq!(w.finish_create("ws1"), Some((1, 2)));
    assert_eq!(w.payload(), (2, 2));
    let s = w.switch("ws1", 1).unwrap();
    assert_eq!((s.from.as_str(), s.to.as_str(), s.index, s.total), ("ws1", "ws0", 0, 2));
    let s = w.switch("ws0", -1).unwrap();
    assert_eq!((s.to.as_str(), s.index), ("ws1", 1));
    // An unknown label switches from the active workspace.
    let s = w.switch("other", -3).unwrap();
    assert_eq!((s.from.as_str(), s.to.as_str()), ("ws1", "ws0"));
    assert_eq!(w.active_label(), "ws0");
}

#[test]
fn creation_is_one_at_a_time_and_limited() {
    let mut w = Workspaces::new();
    assert!(w.begin_create(true).is_ok());
    assert!(w.is_creating());
    assert_eq!(w.begin_create(true).err(), Some(CreateError::Busy));
    w.finish_create("ws1");
    assert!(!w.is_creating());
    assert_eq!(w.begin_create(false).err(), Some(CreateError::WindowSize));
    assert!(!w.is_creating());
    for _ in 2..MAX_WORKSPACES {
        let n = w.begin_create(true).unwrap();
        w.finish_create(&n.label);
    }
    assert_eq!(w.payload(), (12, 12));
    assert_eq!(w.begin_create(true).err(), Some(CreateError::Limit));
    assert_eq!(CreateError::Limit.message(), "Límite de 12 workspaces alcanzado");
}

#[test]
fn abandoned_creation_takes_the_label_back() {
    let mut w = Workspaces::new();
    let n = w.begin_create(true).unwrap();
    assert_eq!(n.label, "ws1");
    w.abandon_create();
    assert_eq!(w.payload(), (1, 1));
    assert!(!w.is_creating());
    assert_eq!(w.begin_create(true).unwrap().label, "ws1");
}

#[test]
fn engines_are_checked_and_restorable() {
    assert!(is_valid_engine("ddg"));
    assert!(is_valid_engine("google"));
    assert!(is_valid_engine("bing"));
    assert!(!is_valid_engine("yahoo"));
    assert!(!is_valid_engine("Google"));
    let mut s = Settings::defaults();
    assert!(s.adblock);
    assert_eq!(s.engine, "google");
    assert_eq!(s.set_engine("yahoo".to_string()).err(), Some(SettingsError::UnknownEngine));
    assert_eq!(s.engine, "google");
    let previous = s.set_engine("bing".to_string()).unwrap();
    assert_eq!(previous, "google");
    assert_eq!(s.engine, "bing");
    assert!(s.set_adblock(false));
    assert!(!s.adblock);
    let loaded = Settings::loaded(None);
    assert!(loaded.adblock);
    assert_eq!(loaded.engine, "google");
    let loaded = Settings::loaded(Some(Settings { adblock: false, engine: "ddg".to_string() }));
    assert_eq!(loaded.engine, "ddg");
    assert!(!loaded.adblock);
}

#[test]
fn switching_back_returns_to_the_start() {
    let mut w = Workspaces::new();
    for _ in 1..5 {
        let n = w.begin_create(true).unwrap();
        w.finish_create(&n.label);
    }
    assert_eq!(w.active_label(), "ws4");
    for dir in [-7, -1, 2, 3, 9] {
        let start = w.active_label();
        if let Some(s) = w.switch(&start, dir) {
            assert!(s.index < s.total);
            let back = w.switch(&s.to, -dir).unwrap();
            assert_eq!(back.to, start);
        }
    }
}

fn expected_badge(index: usize, total: usize) -> String {
    let script = format!(
        r#"(() => {{
          let badge = document.querySelector('#minibrowser-workspace-badge');
          if (!badge) {{
            badge = document.createElement('div');
            badge.id = 'minibrowser-workspace-badge';
            Object.assign(badge.style, {{
              position: 'fixed', left: '14px', bottom: '14px', zIndex: '2147483647',
              padding: '6px 9px', borderRadius: '8px', pointerEvents: 'none',
              background: '#15171dee', color: '#c8ced8', border: '1px solid #3d4552',
              font: '11px/1.2 system-ui, sans-serif', boxShadow: '0 8px 24px #0008'
            }});
            document.documentElement.appendChild(badge);
          }}
          badge.textContent = 'Espacio {} / {}';
        }})()"#,
        index + 1,
        total
    );
    script
}

#[test]
fn badge_counts_from_one() {
    assert_eq!(workspace_badge_script(0, 1), expected_badge(0, 1));
    assert_eq!(workspace_badge_script(10, 12), expected_badge(10, 12));
    assert!(workspace_badge_script(2, 4).contains("'Espacio 3 / 4'"));
}

#[test]
fn full_turn_returns_to_the_start() {
    let mut w = Workspaces::new();
    for _ in 1..5 {
        let n = w.begin_create(true).unwrap();
        w.finish_create(&n.label);
    }
    for dir in [1, -1] {
        let start = w.active_label();
        for _ in 0..5 {
            let current = w.active_label();
            w.switch(&current, dir).unwrap();
        }
        assert_eq!(w.active_label(), start);
    }
}
