use mirro_rs::action::{Action, Actions};
use mirro_rs::cli::{self, SelectionSort};
use mirro_rs::config::Configuration;
use mirro_rs::dispatch::{ExportSort, Filter, ViewSort};
use mirro_rs::key::{classify, Key, RawCode, RawKey};
use mirro_rs::listing::derive_view;
use mirro_rs::mirrors::{ArchLinux, Country, Mirror, Protocol};
use mirro_rs::model::AppReturn;
use mirro_rs::selection::{flatten, toggle_country, SelectedMirror};
use mirro_rs::state::App;
use mirro_rs::text::prefix_width;

fn mirror(protocol: Protocol, last_sync: Option<i64>) -> Mirror {
    Mirror {
        protocol,
        completion_pct: 10000,
        delay: Some(3600),
        duration_avg: Some(250_000),
        duration_stddev: Some(1_000),
        score: Some(1_500),
        last_sync,
    }
}

fn country(code: &str, name: &str, leaves: usize) -> Country {
    let mut mirrors = Vec::new();
    for i in 0..leaves {
        let protocol = if i % 2 == 0 { Protocol::Https } else { Protocol::Http };
        mirrors.push(mirror(protocol, Some(1_000)));
    }
    Country { code: code.to_string(), name: name.to_string(), mirrors }
}

fn fixture() -> ArchLinux {
    ArchLinux {
        countries: vec![country("AL", "Alpha", 2), country("BE", "Beta", 0), country("GA", "Gamma", 5)],
        last_check: 2_000,
    }
}

fn ready_app() -> App {
    let mut app = App::new();
    app.ready();
    app.set_items(fixture());
    app.set_viewport_height(2);
    app
}

fn names(app: &App) -> Vec<String> {
    let items = &app.mirrors.as_ref().unwrap().countries;
    app.filtered_countries.iter().map(|(i, _)| items[*i].name.clone()).collect()
}

fn text(app: &App) -> String {
    app.input.iter().collect()
}

fn type_text(app: &mut App, s: &str) {
    for c in s.chars() {
        app.dispatch_action(Key::Char(c));
    }
}

#[test]
fn classify_maps_each_code() {
    let plain = |code| RawKey { code, ctrl: false, alt: false };
    assert_eq!(classify(plain(RawCode::Character('a'))), Key::Char('a'));
    assert_eq!(classify(plain(RawCode::Enter)), Key::Enter);
    assert_eq!(classify(plain(RawCode::Backspace)), Key::Backspace);
    assert_eq!(classify(plain(RawCode::Delete)), Key::Delete);
    assert_eq!(classify(plain(RawCode::Left)), Key::Left);
    assert_eq!(classify(plain(RawCode::Right)), Key::Right);
    assert_eq!(classify(plain(RawCode::Up)), Key::Up);
    assert_eq!(classify(plain(RawCode::Down)), Key::Down);
    assert_eq!(classify(plain(RawCode::Home)), Key::Home);
    assert_eq!(classify(plain(RawCode::End)), Key::End);
    assert_eq!(classify(plain(RawCode::Escape)), Key::Esc);
    assert_eq!(classify(plain(RawCode::Function(5))), Key::F(5));
    assert_eq!(classify(plain(RawCode::Other)), Key::Unknown);
}

#[test]
fn classify_looks_at_modifiers_of_characters() {
    assert_eq!(classify(RawKey { code: RawCode::Character('c'), ctrl: true, alt: false }), Key::Ctrl('c'));
    assert_eq!(classify(RawKey { code: RawCode::Character('c'), ctrl: true, alt: true }), Key::Ctrl('c'));
    assert_eq!(classify(RawKey { code: RawCode::Character('c'), ctrl: false, alt: true }), Key::Unknown);
    assert_eq!(classify(RawKey { code: RawCode::Enter, ctrl: true, alt: true }), Key::Enter);
}

#[test]
fn exit_keys() {
    assert!(Key::Char('q').is_exit());
    assert!(Key::Ctrl('c').is_exit());
    assert!(!Key::Esc.is_exit());
    assert!(!Key::Char('c').is_exit());
    assert!(!Key::Ctrl('q').is_exit());
}

#[test]
fn every_action_has_its_own_key() {
    let all = Actions::full();
    assert_eq!(all.list.len(), 12);
    for (i, a) in all.list.iter().enumerate() {
        for b in all.list.iter().skip(i + 1) {
            assert_ne!(a.key(), b.key());
        }
        assert_eq!(all.find(a.key()), Some(*a));
    }
}

#[test]
fn find_in_loading_phase_knows_quit_only() {
    let loading = Actions::loading();
    assert_eq!(loading.find(Key::Char('q')), Some(Action::Quit));
    assert_eq!(loading.find(Key::Char('j')), None);
    assert_eq!(loading.find(Key::Esc), None);
}

#[test]
fn find_takes_the_first_match() {
    let set = Actions { list: vec![Action::NavigateUp, Action::Quit, Action::NavigateUp] };
    assert_eq!(set.find(Key::Char('k')), Some(Action::NavigateUp));
    assert_eq!(set.find(Key::Char('q')), Some(Action::Quit));
    assert_eq!(set.find(Key::Unknown), None);
    assert_eq!(Actions { list: vec![] }.find(Key::Char('q')), None);
}

#[test]
fn new_app_is_loading_in_command_mode() {
    let app = App::new();
    assert!(app.show_popup);
    assert!(!app.show_input);
    assert!(app.mirrors.is_none());
    assert_eq!(app.actions.list, vec![Action::Quit]);
    assert_eq!(app.active_filter, vec![Filter::Https, Filter::Http]);
    assert_eq!(app.active_sort, vec![ViewSort::Alphabetical]);
    assert_eq!(app.scroll_pos, 0);
    assert_eq!(app.table_viewport_height, 0);
    assert!(app.input.is_empty());
    assert!(app.filtered_countries.is_empty());
    assert!(app.selected_mirrors.is_empty());
}

#[test]
fn ready_enables_all_actions_and_closes_popup() {
    let mut app = App::new();
    app.ready();
    assert!(!app.show_popup);
    assert_eq!(app.actions.list.len(), 12);
    assert_eq!(app.actions.list[0], Action::ShowInput);
    assert_eq!(app.actions.list[11], Action::ToggleSelect);
}

#[test]
fn alphabetical_view_of_three_countries() {
    let app = ready_app();
    assert_eq!(names(&app), vec!["Alpha", "Beta", "Gamma"]);
    assert_eq!(app.filtered_countries, vec![(0, 2), (1, 0), (2, 5)]);
}

#[test]
fn derive_view_sorts_by_name() {
    let items = vec![country("GA", "Gamma", 5), country("AL", "Alpha", 2), country("BE", "Beta", 0)];
    let view = derive_view(&items, 2_000, &vec![Filter::Https, Filter::Http], ViewSort::Alphabetical);
    assert_eq!(view, vec![(1, 2), (2, 0), (0, 5)]);
}

#[test]
fn derive_view_orders_prefix_before_longer_name() {
    let items = vec![country("B", "Ab", 0), country("A", "A", 0), country("C", "Aa", 0), country("D", "B", 0)];
    let view = derive_view(&items, 0, &vec![], ViewSort::Alphabetical);
    assert_eq!(view, vec![(1, 0), (2, 0), (0, 0), (3, 0)]);
}

#[test]
fn derive_view_sorts_by_falling_mirror_count_and_is_stable() {
    let items = vec![
        country("A", "A", 2),
        country("B", "B", 5),
        country("C", "C", 2),
        country("D", "D", 0),
        country("E", "E", 5),
    ];
    let view = derive_view(&items, 2_000, &vec![], ViewSort::MirrorCount);
    assert_eq!(view, vec![(1, 5), (4, 5), (0, 2), (2, 2), (3, 0)]);
}

#[test]
fn derive_view_keeps_equal_names_in_input_order() {
    let items = vec![country("X", "Same", 1), country("Y", "Same", 3), country("Z", "Same", 2)];
    let view = derive_view(&items, 2_000, &vec![], ViewSort::Alphabetical);
    assert_eq!(view, vec![(0, 1), (1, 3), (2, 2)]);
}

#[test]
fn derive_view_drops_country_that_misses_a_filter() {
    let only_https = Country {
        code: "H".to_string(),
        name: "Https only".to_string(),
        mirrors: vec![mirror(Protocol::Https, None), mirror(Protocol::Https, None)],
    };
    let items = vec![only_https, country("B", "Both", 2), country("E", "Empty", 0)];
    let both = vec![Filter::Https, Filter::Http];
    assert_eq!(derive_view(&items, 0, &both, ViewSort::Alphabetical), vec![(1, 2), (2, 0)]);
    assert_eq!(derive_view(&items, 0, &vec![Filter::Https], ViewSort::Alphabetical), vec![(1, 2), (2, 0), (0, 2)]);
    assert_eq!(derive_view(&items, 0, &vec![Filter::Rsync], ViewSort::Alphabetical), vec![(2, 0)]);
    assert_eq!(derive_view(&items, 0, &vec![], ViewSort::Alphabetical), vec![(1, 2), (2, 0), (0, 2)]);
}

#[test]
fn derive_view_twice_gives_the_same_list() {
    let items = fixture().countries;
    let filters = vec![Filter::Https, Filter::Http];
    let first = derive_view(&items, 2_000, &filters, ViewSort::MirrorCount);
    let second = derive_view(&items, 2_000, &filters, ViewSort::MirrorCount);
    assert_eq!(first, second);
    assert_eq!(first, vec![(2, 5), (0, 2), (1, 0)]);
}

#[test]
fn in_sync_filter_looks_at_last_sync() {
    let m = mirror(Protocol::Http, Some(1_000));
    assert!(m.matches(Filter::InSync, 1_000 + 86_400));
    assert!(!m.matches(Filter::InSync, 1_000 + 86_401));
    assert!(m.matches(Filter::InSync, 500));
    assert!(!mirror(Protocol::Http, None).matches(Filter::InSync, 0));
    assert!(mirror(Protocol::Http, Some(i64::MAX)).matches(Filter::InSync, i64::MIN));
    assert!(!mirror(Protocol::Http, Some(i64::MIN)).matches(Filter::InSync, i64::MAX));
    assert!(!mirror(Protocol::Http, Some(-1)).matches(Filter::InSync, 86_400));
    assert!(mirror(Protocol::Http, Some(-1)).matches(Filter::InSync, 86_399));
    assert!(mirror(Protocol::Http, Some(-86_401)).matches(Filter::InSync, -1));
    assert!(!mirror(Protocol::Http, Some(-86_402)).matches(Filter::InSync, -1));
}

#[test]
fn protocol_filters_look_at_protocol() {
    let m = mirror(Protocol::Rsync, None);
    assert!(m.matches(Filter::Rsync, 0));
    assert!(!m.matches(Filter::Http, 0));
    assert!(!m.matches(Filter::Https, 0));
    assert!(mirror(Protocol::Http, None).matches(Filter::Http, 0));
    assert!(mirror(Protocol::Https, None).matches(Filter::Https, 0));
}

#[test]
fn previous_from_first_row_wraps() {
    let mut app = ready_app();
    assert_eq!(app.scroll_pos, 0);
    app.previous();
    assert_eq!(app.scroll_pos, 2);
}

#[test]
fn next_from_last_row_wraps() {
    let mut app = ready_app();
    app.next();
    assert_eq!(app.scroll_pos, 1);
    app.next();
    assert_eq!(app.scroll_pos, 2);
    app.next();
    assert_eq!(app.scroll_pos, 0);
    app.previous();
    app.previous();
    assert_eq!(app.scroll_pos, 1);
}

#[test]
fn moves_on_empty_list_do_nothing() {
    let mut app = App::new();
    app.ready();
    app.next();
    assert_eq!(app.scroll_pos, 0);
    app.previous();
    assert_eq!(app.scroll_pos, 0);
    assert_eq!(app.fragment_number(), 0);
    assert_eq!(app.in_page_offset(), 0);
    assert_eq!(app.item_at(), None);
    app.focused_country();
    assert!(app.selected_mirrors.is_empty());
    assert_eq!(app.dispatch_action(Key::Char(' ')), AppReturn::Continue);
    assert!(app.selected_mirrors.is_empty());
}

#[test]
fn cursor_stays_inside_the_list() {
    let mut app = ready_app();
    let keys = [
        Key::Char('j'), Key::Char('j'), Key::Char('j'), Key::Char('k'), Key::Ctrl('h'), Key::Char('k'),
        Key::Char('2'), Key::Char('j'), Key::Ctrl('r'), Key::Char('j'), Key::Char(' '), Key::Ctrl('s'),
        Key::Esc, Key::Char('x'), Key::Esc, Key::Char('k'), Key::Ctrl('o'), Key::Char('1'), Key::Char('j'),
    ];
    for key in keys {
        app.dispatch_action(key);
        if app.filtered_countries.is_empty() {
            assert_eq!(app.scroll_pos, 0);
        } else {
            assert!(app.scroll_pos < app.filtered_countries.len());
        }
    }
}

#[test]
fn fragments_of_five_by_two() {
    let mut app = App::new();
    app.set_viewport_height(2);
    let list = [10, 11, 12, 13, 14];
    let pages = app.view_fragments(&list);
    assert_eq!(pages, vec![&[10, 11][..], &[12, 13][..], &[14][..]]);
    let sizes: Vec<usize> = pages.iter().map(|p| p.len()).collect();
    assert_eq!(sizes, vec![2, 2, 1]);
    app.scroll_pos = 4;
    assert_eq!(app.fragment_number(), 2);
    assert_eq!(app.in_page_offset(), 0);
    assert_eq!(app.view(&[7, 8, 9]), 9);
}

#[test]
fn fragments_partition_the_list() {
    let mut app = App::new();
    for h in 1u16..7 {
        app.set_viewport_height(h);
        for n in 0usize..20 {
            let list: Vec<usize> = (0..n).collect();
            let pages = app.view_fragments(&list);
            assert_eq!(pages.len(), (n + h as usize - 1) / h as usize);
            assert_eq!(pages.iter().map(|p| p.len()).sum::<usize>(), n);
            for (i, page) in pages.iter().enumerate() {
                if i + 1 < pages.len() {
                    assert_eq!(page.len(), h as usize);
                } else {
                    assert!(page.len() >= 1 && page.len() <= h as usize);
                }
                assert_eq!(page[0], i * h as usize);
            }
            assert_eq!(pages.concat(), list);
        }
    }
}

#[test]
fn fragments_of_exact_multiple_and_of_nothing() {
    let mut app = App::new();
    app.set_viewport_height(3);
    let empty: [u8; 0] = [];
    assert!(app.view_fragments(&empty).is_empty());
    assert_eq!(app.view_fragments(&[1, 2, 3, 4, 5, 6]), vec![&[1, 2, 3][..], &[4, 5, 6][..]]);
    assert_eq!(app.view_fragments(&[1]), vec![&[1][..]]);
}

#[test]
fn page_and_offset_follow_the_cursor() {
    let mut app = ready_app();
    assert_eq!((app.fragment_number(), app.in_page_offset()), (0, 0));
    app.next();
    assert_eq!((app.fragment_number(), app.in_page_offset()), (0, 1));
    app.next();
    assert_eq!((app.fragment_number(), app.in_page_offset()), (1, 0));
    assert_eq!(app.item_at(), Some((2, 5)));
    app.set_viewport_height(0);
    assert_eq!((app.fragment_number(), app.in_page_offset()), (0, 2));
    assert_eq!(app.item_at(), Some((2, 5)));
}

#[test]
fn backspace_in_text_entry() {
    let mut app = ready_app();
    assert_eq!(app.dispatch_action(Key::Esc), AppReturn::Continue);
    assert!(app.show_input);
    type_text(&mut app, "ab");
    app.dispatch_action(Key::Left);
    assert_eq!(text(&app), "ab");
    assert_eq!(app.input_cursor_position, 1);
    assert_eq!(app.dispatch_action(Key::Backspace), AppReturn::Continue);
    assert_eq!(text(&app), "b");
    assert_eq!(app.input_cursor_position, 0);
    app.dispatch_action(Key::Backspace);
    assert_eq!(text(&app), "b");
    assert_eq!(app.input_cursor_position, 0);
}

#[test]
fn text_entry_edits_at_the_cursor() {
    let mut app = ready_app();
    app.dispatch_action(Key::Esc);
    type_text(&mut app, "hello");
    assert_eq!(app.input_cursor_position, 5);
    app.dispatch_action(Key::Right);
    assert_eq!(app.input_cursor_position, 5);
    app.dispatch_action(Key::Delete);
    assert_eq!(text(&app), "hello");
    app.dispatch_action(Key::Home);
    assert_eq!(app.input_cursor_position, 0);
    app.dispatch_action(Key::Left);
    assert_eq!(app.input_cursor_position, 0);
    app.dispatch_action(Key::Delete);
    assert_eq!(text(&app), "ello");
    assert_eq!(app.input_cursor_position, 0);
    app.dispatch_action(Key::Right);
    app.dispatch_action(Key::Right);
    assert_eq!(app.input_cursor_position, 2);
    app.dispatch_action(Key::Char('X'));
    assert_eq!(text(&app), "elXlo");
    assert_eq!(app.input_cursor_position, 3);
    app.dispatch_action(Key::End);
    assert_eq!(app.input_cursor_position, 5);
    app.dispatch_action(Key::Enter);
    app.dispatch_action(Key::Up);
    app.dispatch_action(Key::F(1));
    app.dispatch_action(Key::Unknown);
    app.dispatch_action(Key::Ctrl('c'));
    assert_eq!(text(&app), "elXlo");
    assert_eq!(app.input_cursor_position, 5);
    assert!(app.show_input);
}

#[test]
fn text_entry_takes_command_letters_as_text() {
    let mut app = ready_app();
    app.next();
    app.dispatch_action(Key::Esc);
    assert_eq!(app.scroll_pos, 1);
    for c in ['q', 'j', 'k', '1', '2'] {
        assert_eq!(app.dispatch_action(Key::Char(c)), AppReturn::Continue);
    }
    assert_eq!(text(&app), "qjk12");
    assert_eq!(app.scroll_pos, 0);
    assert_eq!(app.active_sort, vec![ViewSort::Alphabetical]);
    app.dispatch_action(Key::Char(' '));
    app.dispatch_action(Key::Ctrl('h'));
    app.dispatch_action(Key::Ctrl('p'));
    assert_eq!(text(&app), "qjk12");
    assert!(app.selected_mirrors.is_empty());
    assert_eq!(app.active_filter, vec![Filter::Https, Filter::Http]);
    assert!(!app.show_popup);
}

#[test]
fn typing_resets_the_list_cursor() {
    let mut app = ready_app();
    app.next();
    app.next();
    app.dispatch_action(Key::Esc);
    assert_eq!(app.scroll_pos, 2);
    app.dispatch_action(Key::Char('z'));
    assert_eq!(app.scroll_pos, 0);
}

#[test]
fn escape_leaves_text_entry_and_keeps_the_text() {
    let mut app = ready_app();
    app.dispatch_action(Key::Esc);
    type_text(&mut app, "abc");
    app.dispatch_action(Key::Esc);
    assert!(!app.show_input);
    assert_eq!(text(&app), "abc");
    assert_eq!(app.input_cursor_position, 3);
    let mut loading = App::new();
    loading.show_input = true;
    assert_eq!(loading.dispatch_action(Key::Esc), AppReturn::Continue);
    assert!(!loading.show_input);
}

#[test]
fn text_entry_handles_wide_characters_by_character() {
    let mut app = ready_app();
    app.dispatch_action(Key::Esc);
    type_text(&mut app, "a日b");
    assert_eq!(app.input_cursor_position, 3);
    assert_eq!(app.input_cursor_column(), 4);
    app.dispatch_action(Key::Left);
    assert_eq!(app.input_cursor_column(), 3);
    app.dispatch_action(Key::Backspace);
    assert_eq!(text(&app), "ab");
    assert_eq!(app.input_cursor_position, 1);
    assert_eq!(app.input_cursor_column(), 1);
}

#[test]
fn prefix_width_measures_columns() {
    let chars: Vec<char> = "日本語x".chars().collect();
    assert_eq!(prefix_width(&chars, 0), 0);
    assert_eq!(prefix_width(&chars, 1), 2);
    assert_eq!(prefix_width(&chars, 3), 6);
    assert_eq!(prefix_width(&chars, 4), 7);
    assert_eq!(prefix_width(&chars, 9), 7);
}

#[test]
fn exit_keys_end_the_session_in_command_mode_only() {
    let mut app = ready_app();
    assert_eq!(app.dispatch_action(Key::Char('q')), AppReturn::Exit);
    assert_eq!(app.dispatch_action(Key::Ctrl('c')), AppReturn::Exit);
    let mut loading = App::new();
    assert_eq!(loading.dispatch_action(Key::Char('q')), AppReturn::Exit);
    assert_eq!(loading.dispatch_action(Key::Ctrl('c')), AppReturn::Exit);
    assert_eq!(loading.dispatch_action(Key::Char('j')), AppReturn::Continue);
    app.dispatch_action(Key::Esc);
    assert_eq!(app.dispatch_action(Key::Char('q')), AppReturn::Continue);
    assert_eq!(app.dispatch_action(Key::Ctrl('c')), AppReturn::Continue);
    assert_eq!(text(&app), "q");
}

#[test]
fn unmapped_keys_do_nothing_in_command_mode() {
    let mut app = ready_app();
    app.next();
    for key in [Key::Enter, Key::Up, Key::Down, Key::Char('x'), Key::F(2), Key::Unknown, Key::Backspace] {
        assert_eq!(app.dispatch_action(key), AppReturn::Continue);
    }
    assert_eq!(app.scroll_pos, 1);
    assert!(!app.show_input);
    assert!(app.input.is_empty());
    assert_eq!(names(&app), vec!["Alpha", "Beta", "Gamma"]);
}

#[test]
fn popup_toggles() {
    let mut app = ready_app();
    assert!(!app.show_popup);
    app.dispatch_action(Key::Ctrl('p'));
    assert!(app.show_popup);
    app.dispatch_action(Key::Ctrl('p'));
    assert!(!app.show_popup);
}

#[test]
fn filter_toggle_rebuilds_list_and_resets_cursor() {
    let mut app = ready_app();
    app.next();
    app.dispatch_action(Key::Ctrl('r'));
    assert_eq!(app.active_filter, vec![Filter::Https, Filter::Http, Filter::Rsync]);
    assert_eq!(names(&app), vec!["Beta"]);
    assert_eq!(app.scroll_pos, 0);
    app.dispatch_action(Key::Ctrl('r'));
    assert_eq!(app.active_filter, vec![Filter::Https, Filter::Http]);
    assert_eq!(names(&app), vec!["Alpha", "Beta", "Gamma"]);
}

#[test]
fn filter_toggled_twice_restores_list_and_filter_set() {
    let mut app = ready_app();
    let before = app.filtered_countries.clone();
    app.dispatch_action(Key::Ctrl('s'));
    assert_eq!(app.active_filter, vec![Filter::Http]);
    app.dispatch_action(Key::Ctrl('s'));
    assert_eq!(app.active_filter, vec![Filter::Http, Filter::Https]);
    assert_eq!(app.filtered_countries, before);
    app.dispatch_action(Key::Ctrl('o'));
    assert_eq!(app.active_filter, vec![Filter::Http, Filter::Https, Filter::InSync]);
    app.dispatch_action(Key::Ctrl('o'));
    assert_eq!(app.active_filter, vec![Filter::Http, Filter::Https]);
    assert_eq!(app.filtered_countries, before);
}

#[test]
fn sort_choice_replaces_the_order_and_resets_cursor() {
    let mut app = ready_app();
    app.next();
    app.dispatch_action(Key::Char('2'));
    assert_eq!(app.active_sort, vec![ViewSort::MirrorCount]);
    assert_eq!(names(&app), vec!["Gamma", "Alpha", "Beta"]);
    assert_eq!(app.scroll_pos, 0);
    app.next();
    app.dispatch_action(Key::Char('1'));
    assert_eq!(app.active_sort, vec![ViewSort::Alphabetical]);
    assert_eq!(names(&app), vec!["Alpha", "Beta", "Gamma"]);
    assert_eq!(app.scroll_pos, 0);
}

#[test]
fn set_items_resets_cursor_and_rebuilds() {
    let mut app = ready_app();
    app.next();
    app.next();
    app.set_items(ArchLinux { countries: vec![country("Z", "Zeta", 2), country("E", "Eta", 2)], last_check: 0 });
    assert_eq!(app.scroll_pos, 0);
    assert_eq!(names(&app), vec!["Eta", "Zeta"]);
    assert_eq!(app.filtered_countries, vec![(1, 2), (0, 2)]);
}

#[test]
fn toggle_select_on_gamma_and_back() {
    let mut app = ready_app();
    app.dispatch_action(Key::Char('j'));
    app.dispatch_action(Key::Char('j'));
    assert_eq!(app.item_at(), Some((2, 5)));
    assert_eq!(app.dispatch_action(Key::Char(' ')), AppReturn::Continue);
    assert_eq!(app.selected_mirrors.len(), 5);
    assert!(app.selected_mirrors.iter().all(|m| m.country_code == "GA"));
    let protocols: Vec<Protocol> = app.selected_mirrors.iter().map(|m| m.protocol).collect();
    assert_eq!(
        protocols,
        vec![Protocol::Https, Protocol::Http, Protocol::Https, Protocol::Http, Protocol::Https]
    );
    assert_eq!(app.dispatch_action(Key::Char(' ')), AppReturn::Continue);
    assert!(app.selected_mirrors.is_empty());
}

#[test]
fn toggle_select_keeps_other_countries() {
    let mut app = ready_app();
    app.focused_country();
    assert_eq!(app.selected_mirrors.len(), 2);
    app.next();
    app.next();
    app.focused_country();
    assert_eq!(app.selected_mirrors.len(), 7);
    app.previous();
    app.previous();
    app.focused_country();
    assert_eq!(app.selected_mirrors.len(), 5);
    assert!(app.selected_mirrors.iter().all(|m| m.country_code == "GA"));
    app.focused_country();
    let codes: Vec<&str> = app.selected_mirrors.iter().map(|m| m.country_code.as_str()).collect();
    assert_eq!(codes, vec!["GA", "GA", "GA", "GA", "GA", "AL", "AL"]);
}

#[test]
fn toggle_select_on_country_without_mirrors_changes_nothing() {
    let mut app = ready_app();
    app.next();
    app.focused_country();
    assert!(app.selected_mirrors.is_empty());
}

#[test]
fn toggle_country_copies_the_attributes() {
    let mut chosen: Vec<SelectedMirror> = Vec::new();
    let c = Country {
        code: "SE".to_string(),
        name: "Sweden".to_string(),
        mirrors: vec![Mirror {
            protocol: Protocol::Rsync,
            completion_pct: 9875,
            delay: Some(-5),
            duration_avg: None,
            duration_stddev: Some(7),
            score: Some(42),
            last_sync: Some(99),
        }],
    };
    toggle_country(&mut chosen, &c);
    assert_eq!(chosen.len(), 1);
    let m = &chosen[0];
    assert_eq!(m.country_code, "SE");
    assert_eq!(m.protocol, Protocol::Rsync);
    assert_eq!(m.completion_pct, 9875);
    assert_eq!(m.delay, Some(-5));
    assert_eq!(m.duration_avg, None);
    assert_eq!(m.duration_stddev, Some(7));
    assert_eq!(m.score, Some(42));
    assert_eq!(m.last_sync, Some(99));
    assert!(m.belongs_to(&"SE".to_string()));
    assert!(!m.belongs_to(&"S".to_string()));
    assert_eq!(flatten(&c).len(), 1);
    toggle_country(&mut chosen, &c);
    assert!(chosen.is_empty());
}

#[test]
fn toggle_country_removes_scattered_records() {
    let a = country("A", "A", 1);
    let b = country("B", "B", 2);
    let mut chosen: Vec<SelectedMirror> = Vec::new();
    chosen.extend(flatten(&a));
    chosen.extend(flatten(&b));
    chosen.extend(flatten(&a));
    toggle_country(&mut chosen, &a);
    let codes: Vec<&str> = chosen.iter().map(|m| m.country_code.as_str()).collect();
    assert_eq!(codes, vec!["B", "B"]);
}

#[test]
fn dispatch_outcome_sets_the_popup() {
    let mut app = ready_app();
    app.dispatch(true);
    assert!(app.show_popup);
    app.dispatch(false);
    assert!(!app.show_popup);
}

#[test]
fn tick_changes_nothing() {
    let mut app = ready_app();
    app.next();
    assert_eq!(app.update_on_tick(), AppReturn::Continue);
    assert_eq!(app.scroll_pos, 1);
    assert_eq!(names(&app), vec!["Alpha", "Beta", "Gamma"]);
}

#[test]
fn defaults_of_settings() {
    assert_eq!(cli::configuration_dir(), None);
    assert_eq!(cli::url(), Some("https://archlinux.org/mirrors/status/json/".to_string()));
    assert_eq!(cli::default_ttl(), Some(24));
    assert_eq!(cli::default_export(), Some(50));
    assert_eq!(cli::opt_vec::<String>(), None);
    assert_eq!(cli::sort(), Some(SelectionSort::Score));
    assert_eq!(cli::view(), Some(ViewSort::Alphabetical));
    assert_eq!(cli::filters(), Some(vec![Filter::Http, Filter::Https]));
}

#[test]
fn configuration_maps_the_export_order() {
    let cases = [
        (SelectionSort::Percentage, ExportSort::Completion),
        (SelectionSort::Delay, ExportSort::MirroringDelay),
        (SelectionSort::Duration, ExportSort::Duration),
        (SelectionSort::Score, ExportSort::Score),
    ];
    for (given, expected) in cases {
        let c = Configuration::new(
            "out.txt".to_string(),
            7,
            vec![Filter::Rsync],
            ViewSort::MirrorCount,
            given,
            vec!["SE".to_string()],
            3,
            "http://example.org".to_string(),
        );
        assert_eq!(c.sort, expected);
        assert_eq!(c.outfile, "out.txt");
        assert_eq!(c.export, 7);
        assert_eq!(c.filters, vec![Filter::Rsync]);
        assert_eq!(c.view, ViewSort::MirrorCount);
        assert_eq!(c.country, vec!["SE".to_string()]);
        assert_eq!(c.ttl, 3);
        assert_eq!(c.url, "http://example.org");
    }
}
