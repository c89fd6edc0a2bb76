use fmtna::cfg::Cfg;
use fmtna::cli::Cli;
use fmtna::cli::Command;
use fmtna::cli::DefaultArgs;
use fmtna::cli::EditCli;
use fmtna::cli::ExcludeCommand;
use fmtna::default::error_message;
use fmtna::default::get_engine as get_default_engine;
use fmtna::default::plan_new_filename;
use fmtna::default::process_decision;
use fmtna::default::ChangeStemError;
use fmtna::default::ProcessDecision;
use fmtna::engine::get_engine;
use fmtna::engine::Action;
use fmtna::engine::ConflictResolver;
use fmtna::engine::EngineChoice;
use fmtna::exclude::edit::get_engine as get_edit_engine;
use fmtna::naming_conventions::NamingConvention;
use fmtna::prompt::already_exist_prompt;
use fmtna::prompt::conflict_prompt_step;
use fmtna::prompt::error_prompt;
use fmtna::prompt::AlreadyExistPromptOptions;
use fmtna::prompt::PromptReply;
use fmtna::utils::backup_file_name;
use fmtna::utils::get_now_str;
use fmtna::utils::trim_newline;

fn test_cfg() -> Cfg {
    Cfg {
        naming_convention: NamingConvention::SnakeCase,
        recursive: false,
        keep_dots: false,
        keep_special_chars: false,
        keep_unicode: false,
        editor: String::from("vi"),
    }
}

#[test]
fn engine_dispatch() {
    let cli = Cli {
        command: Some(Command::Exclude {
            command: ExcludeCommand::Add { pattern: String::from("p") },
        }),
        files: vec![],
        naming_convention: None,
        recursive: false,
        keep_dots: false,
        keep_special_chars: false,
    };
    match get_engine(cli, test_cfg()) {
        EngineChoice::ExcludeAdd(add) => assert_eq!(add.pattern, "p"),
        other => panic!("wrong engine: {:?}", other),
    }

    let cli = Cli {
        command: Some(Command::Revert { history_file: String::from("h") }),
        files: vec![],
        naming_convention: None,
        recursive: false,
        keep_dots: false,
        keep_special_chars: false,
    };
    match get_engine(cli, test_cfg()) {
        EngineChoice::Revert(r) => assert_eq!(r.history_file, "h"),
        other => panic!("wrong engine: {:?}", other),
    }

    let cli = Cli {
        command: None,
        files: vec![String::from("a.txt")],
        naming_convention: Some(NamingConvention::CamelCase),
        recursive: true,
        keep_dots: false,
        keep_special_chars: false,
    };
    match get_engine(cli, test_cfg()) {
        EngineChoice::Default(args) => {
            assert_eq!(args.files, vec![String::from("a.txt")]);
            assert!(args.recursive);
            assert!(!args.keep_unicode);
        },
        other => panic!("wrong engine: {:?}", other),
    }
}

#[test]
fn sticky_choice_suppresses_prompts() {
    let mut resolver = ConflictResolver::new();
    assert!(resolver.needs_prompt());
    // a plain choice answers one conflict and latches nothing
    let a = resolver.resolve(Some(AlreadyExistPromptOptions::Backup));
    assert_eq!(a, Action::Backup);
    assert!(resolver.needs_prompt());
    // an "always" choice answers and latches
    let a = resolver.resolve(Some(AlreadyExistPromptOptions::AlwaysSkip));
    assert_eq!(a, Action::Skip);
    // from here on no prompt is needed and every conflict gets the action
    for _ in 0..3 {
        assert!(!resolver.needs_prompt());
        assert_eq!(resolver.resolve(None), Action::Skip);
    }
}

#[test]
fn prompt_inputs() {
    assert_eq!(
        AlreadyExistPromptOptions::match_input("s"),
        Some(AlreadyExistPromptOptions::Skip)
    );
    assert_eq!(
        AlreadyExistPromptOptions::match_input("S"),
        Some(AlreadyExistPromptOptions::AlwaysSkip)
    );
    assert_eq!(
        AlreadyExistPromptOptions::match_input("b"),
        Some(AlreadyExistPromptOptions::Backup)
    );
    assert_eq!(
        AlreadyExistPromptOptions::match_input("B"),
        Some(AlreadyExistPromptOptions::AlwaysBackup)
    );
    assert_eq!(
        AlreadyExistPromptOptions::match_input("o"),
        Some(AlreadyExistPromptOptions::Overwrite)
    );
    assert_eq!(
        AlreadyExistPromptOptions::match_input("O"),
        Some(AlreadyExistPromptOptions::AlwaysOverwrite)
    );
    assert_eq!(AlreadyExistPromptOptions::match_input("x"), None);
    assert_eq!(AlreadyExistPromptOptions::match_input("ss"), None);

    assert_eq!(
        conflict_prompt_step("o"),
        PromptReply::Chosen(AlreadyExistPromptOptions::Overwrite)
    );
    assert_eq!(conflict_prompt_step("h"), PromptReply::ShowHelp);
    assert_eq!(conflict_prompt_step("nope"), PromptReply::Invalid);

    let inputs = AlreadyExistPromptOptions::get_valid_inputs();
    assert_eq!(inputs, vec!["s", "S", "b", "B", "o", "O"]);

    assert_eq!(
        error_prompt("/a/x", "File doesn't exist."),
        "(?) /a/x: File doesn't exist.\n    Enter a key to continue: "
    );
    let q = already_exist_prompt("/a/x", "/a/y");
    assert!(q.starts_with("(?) /a/x -> /a/y: New file already exists."));
}

#[test]
fn stem_change_planning() {
    // a rename is planned when the convention changes the stem
    let planned = plan_new_filename(
        &NamingConvention::SnakeCase,
        "My File",
        Some("txt"),
        false,
        false,
        false,
        false,
    );
    assert_eq!(planned, Some(String::from("my_file.txt")));
    // no extension: the stem alone
    let planned = plan_new_filename(
        &NamingConvention::SnakeCase,
        "My File",
        None,
        false,
        false,
        false,
        false,
    );
    assert_eq!(planned, Some(String::from("my_file")));
    // nothing to do when the name already fits
    let planned = plan_new_filename(
        &NamingConvention::SnakeCase,
        "my_file",
        Some("txt"),
        false,
        false,
        false,
        false,
    );
    assert_eq!(planned, None);
    // on a case-insensitive filesystem a case-only change is no rename
    let planned = plan_new_filename(
        &NamingConvention::Lower,
        "MY_FILE",
        Some("txt"),
        false,
        false,
        false,
        true,
    );
    assert_eq!(planned, None);
    let planned = plan_new_filename(
        &NamingConvention::Lower,
        "MY_FILE",
        Some("txt"),
        false,
        false,
        false,
        false,
    );
    assert_eq!(planned, Some(String::from("my_file.txt")));
}

#[test]
fn process_decisions() {
    // an excluded item is dropped silently, whatever else holds of it
    assert_eq!(
        process_decision(true, Ok(Some(String::from("n"))), true),
        ProcessDecision::Ignore
    );
    assert_eq!(
        process_decision(false, Err(ChangeStemError::FileDoesntExist), false),
        ProcessDecision::Error(ChangeStemError::FileDoesntExist)
    );
    assert_eq!(process_decision(false, Ok(None), false), ProcessDecision::NoRename);
    assert_eq!(
        process_decision(false, Ok(Some(String::from("n"))), false),
        ProcessDecision::DoRename(String::from("n"))
    );
    assert_eq!(
        process_decision(false, Ok(Some(String::from("n"))), true),
        ProcessDecision::Conflict(String::from("n"))
    );
}

#[test]
fn error_messages() {
    assert_eq!(error_message(&ChangeStemError::FileDoesntExist), "File doesn't exist.");
    assert_eq!(error_message(&ChangeStemError::FailedToRetrieveFileStem), "Failed to find the stem.");
    assert_eq!(
        error_message(&ChangeStemError::FileHasInvalidUnicode),
        "File contains invalid unicode characters."
    );
    assert_eq!(error_message(&ChangeStemError::FailedToAbsolutizeFile), "Failed to absolutize.");
    assert_eq!(
        error_message(&ChangeStemError::FileHasNoParentDirectory),
        "File has no parent directory"
    );
    assert_eq!(error_message(&ChangeStemError::FailedToRename), "Failed to rename.");
}

#[test]
fn default_engine_compiles_exclude_lines() {
    let args = DefaultArgs {
        files: vec![],
        naming_convention: None,
        recursive: false,
        keep_dots: false,
        keep_special_chars: false,
        keep_unicode: false,
    };
    let lines: Vec<String> = vec![
        String::from("// comment"),
        String::from("Makefile"),
        String::from(r".*\.rs"),
    ];
    let engine = get_default_engine(args.clone(), test_cfg(), &lines).expect("valid patterns");
    assert_eq!(engine.data.naming_convention, NamingConvention::SnakeCase);
    assert!(!engine.data.keep_unicode);

    // a config-supplied keep-unicode flag survives the merge
    let mut cfg = test_cfg();
    cfg.keep_unicode = true;
    let engine = get_default_engine(args.clone(), cfg, &lines).expect("valid patterns");
    assert!(engine.data.keep_unicode);

    let bad: Vec<String> = vec![String::from("Makefile"), String::from("(((")];
    match get_default_engine(args, test_cfg(), &bad) {
        Ok(_) => panic!("an invalid pattern must be rejected"),
        Err(err) => assert_eq!(err.line_no, 1),
    }
}

#[test]
fn editor_choice() {
    let engine = get_edit_engine(EditCli { editor: Some(String::from("nvim")) }, test_cfg());
    assert_eq!(engine.data.editor, "nvim");
    let engine = get_edit_engine(EditCli { editor: None }, test_cfg());
    assert_eq!(engine.data.editor, "vi");
}

#[test]
fn newline_trimming() {
    let mut s = String::from("line\n");
    trim_newline(&mut s);
    assert_eq!(s, "line");
    let mut s = String::from("line\r\n");
    trim_newline(&mut s);
    assert_eq!(s, "line");
    let mut s = String::from("line\r");
    trim_newline(&mut s);
    assert_eq!(s, "line\r");
    let mut s = String::from("line");
    trim_newline(&mut s);
    assert_eq!(s, "line");
}

#[test]
fn timestamps_and_backup_names() {
    let now = get_now_str();
    assert!(now.len() >= 15);
    assert!(now.is_ascii());
    let name = backup_file_name("report", Some("txt"), "20200101_1200000");
    assert_eq!(name, "report_backup_20200101_1200000.txt");
    let name = backup_file_name("report", None, "20200101_1200000");
    assert_eq!(name, "report_backup_20200101_1200000");
}
