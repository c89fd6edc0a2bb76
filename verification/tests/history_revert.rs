use fmtna::cfg::Cfg;
use fmtna::cli::RevertCli;
use fmtna::history::format_error_record;
use fmtna::history::format_record;
use fmtna::history::line_is_ignorable;
use fmtna::history::parse_history_line;
use fmtna::history::Op;
use fmtna::history::TransactionLog;
use fmtna::naming_conventions::NamingConvention;
use fmtna::revert::plan_revert;
use fmtna::revert::revert_error_message;
use fmtna::revert::revert_step;
use fmtna::revert::usize_to_string;
use fmtna::revert::Data;
use fmtna::revert::RevertAction;

fn test_cfg() -> Cfg {
    Cfg {
        naming_convention: NamingConvention::SnakeCase,
        recursive: false,
        keep_dots: false,
        keep_special_chars: false,
        keep_unicode: false,
        editor: String::from("vi"),
    }
}

#[test]
fn record_formatting() {
    assert_eq!(format_record(&Op::Renamed, "/a/old.txt", "/a/new.txt"), "(d) /a/old.txt -> /a/new.txt");
    assert_eq!(format_record(&Op::Skipped, "a", "b"), "(s) a -> b");
    assert_eq!(format_record(&Op::BackedUp, "a", "b"), "(b) a -> b");
    assert_eq!(format_record(&Op::Overwritten, "a", "b"), "(o) a -> b");
    assert_eq!(format_error_record("/a/x", "File doesn't exist."), "(e) /a/x: File doesn't exist.");
}

#[test]
fn parsing_round_trips_a_record() {
    let line = format_record(&Op::Renamed, "/a/old name.txt", "/a/new_name.txt");
    let parsed = parse_history_line(&line).expect("a written record must parse");
    assert_eq!(parsed.0, 'd');
    assert_eq!(parsed.1, "/a/old name.txt");
    assert_eq!(parsed.2, "/a/new_name.txt");

    // the split happens at the last separator
    let parsed = parse_history_line("(d) a -> b -> c").unwrap();
    assert_eq!(parsed.1, "a -> b");
    assert_eq!(parsed.2, "c");

    assert!(parse_history_line("no record here").is_none());
    assert!(parse_history_line("(e) /a/x: File doesn't exist.").is_none());
    assert!(parse_history_line("(d) missing separator").is_none());
}

#[test]
fn ignorable_lines() {
    assert!(line_is_ignorable(""));
    assert!(line_is_ignorable("// comment"));
    assert!(!line_is_ignorable("/"));
    assert!(!line_is_ignorable("(d) a -> b"));
}

#[test]
fn rename_then_revert_restores_the_name() {
    // the forward engine records the rename ...
    let line = format_record(&Op::Renamed, "/dir/Old Name.txt", "/dir/old_name.txt");
    // ... and the revert pass plans exactly its reversal
    let plan = plan_revert(&vec![line], false);
    assert!(plan.invalid_linenos.is_empty());
    assert_eq!(plan.items.len(), 1);
    assert_eq!(plan.items[0].op, 'd');
    assert_eq!(plan.items[0].from, "/dir/Old Name.txt");
    assert_eq!(plan.items[0].to, "/dir/old_name.txt");
    // with the renamed file present and the old name free, it renames back
    assert_eq!(revert_step('d', true, false), RevertAction::Rename);
}

#[test]
fn revert_plan_walks_backwards_and_skips_noise() {
    let lines: Vec<String> = vec![
        String::from("(d) a -> b"),
        String::from(""),
        String::from("// comment"),
        String::from("(s) c -> d"),
        String::from("(d) same -> same"),
        String::from("(b) e -> f"),
    ];
    let plan = plan_revert(&lines, false);
    assert!(plan.invalid_linenos.is_empty());
    // reverse chronological order, identical pairs dropped
    assert_eq!(plan.items.len(), 3);
    assert_eq!((plan.items[0].op, plan.items[0].from.as_str()), ('b', "e"));
    assert_eq!((plan.items[1].op, plan.items[1].from.as_str()), ('s', "c"));
    assert_eq!((plan.items[2].op, plan.items[2].from.as_str()), ('d', "a"));
}

#[test]
fn revert_plan_is_case_insensitive_when_asked() {
    let lines: Vec<String> = vec![String::from("(d) DIR/NAME -> dir/name")];
    assert_eq!(plan_revert(&lines, false).items.len(), 1);
    assert_eq!(plan_revert(&lines, true).items.len(), 0);
}

#[test]
fn parse_tolerant_revert_reports_only_the_bad_line() {
    let lines: Vec<String> = vec![
        String::from("(d) a -> b"),
        String::from("not a record"),
        String::from("(d) c -> d"),
        String::from("(x) e -> f"),
    ];
    let plan = plan_revert(&lines, false);
    // all well-formed reversions are planned ...
    assert_eq!(plan.items.len(), 2);
    assert_eq!(plan.items[0].from, "c");
    assert_eq!(plan.items[1].from, "a");
    // ... and the bad lines are collected, in reverse scan order
    assert_eq!(plan.invalid_linenos, vec![4, 2]);

    let mess = revert_error_message(&plan.invalid_linenos, "/hist/20200101").unwrap();
    assert_eq!(mess, "Ignored 2 invalid lines with line numbers [2, 4], in /hist/20200101.");

    let one: Vec<usize> = vec![7];
    let mess = revert_error_message(&one, "h").unwrap();
    assert_eq!(mess, "Ignored invalid line with line number 7, in h.");

    let none: Vec<usize> = vec![];
    assert!(revert_error_message(&none, "h").is_none());
}

#[test]
fn revert_step_decisions() {
    assert_eq!(revert_step('d', false, false), RevertAction::MissingTarget);
    assert_eq!(revert_step('d', true, true), RevertAction::Conflict);
    assert_eq!(revert_step('s', true, false), RevertAction::NoOp);
    assert_eq!(revert_step('b', true, false), RevertAction::Rename);
    assert_eq!(revert_step('o', true, false), RevertAction::Rename);
}

#[test]
fn revert_data_requires_an_existing_history_file() {
    let cli = RevertCli { history_file: String::from("somewhere") };
    let data = Data::new(cli.clone(), test_cfg(), true).expect("existing file accepted");
    assert_eq!(data.history_file, "somewhere");
    assert!(Data::new(cli, test_cfg(), false).is_err());
}

#[test]
fn empty_log_leaves_no_contents() {
    let mut log = TransactionLog::new();
    assert!(log.is_empty());
    assert!(log.contents().is_none());
    log.append_record(String::from("(d) a -> b"));
    log.append_record(String::from("(s) c -> d"));
    assert!(!log.is_empty());
    assert_eq!(log.len(), 2);
    assert_eq!(log.contents().unwrap(), "(d) a -> b\n(s) c -> d\n");
}

#[test]
fn decimal_rendering() {
    assert_eq!(usize_to_string(0), "0");
    assert_eq!(usize_to_string(7), "7");
    assert_eq!(usize_to_string(10), "10");
    assert_eq!(usize_to_string(90210), "90210");
}
