use fmtna::cfg::Cfg;
use fmtna::cli::Cli;
use fmtna::cli::Command;
use fmtna::cli::ExcludeCommand;
use fmtna::naming_conventions::NamingConvention;
use fmtna::params::Params;

#[test]
fn cli_takes_precedence_on_config() {
    // Cli takes precedence
    let cli = Cli {
        command: Some(Command::Exclude {
            command: ExcludeCommand::Edit { editor: Some(String::from("nvim")) },
        }),
        files: vec![],
        naming_convention: Some(NamingConvention::CamelCase),
        recursive: true,
        keep_dots: true,
        keep_special_chars: true,
    };
    let cfg = Cfg {
        naming_convention: NamingConvention::SnakeCase,
        recursive: false,
        keep_dots: false,
        keep_special_chars: false,
        keep_unicode: false,
        editor: String::from("vi"),
    };
    let expected = Params {
        command: Some(Command::Exclude {
            command: ExcludeCommand::Edit { editor: Some(String::from("nvim")) },
        }),
        files: vec![],
        naming_convention: NamingConvention::CamelCase,
        recursive: true,
        keep_dots: true,
        keep_special_chars: true,
        editor: Some(String::from("nvim")),
    };
    let params = Params::new(cli, cfg)
        .expect("Params::new should have succeed. There must be an error in the test case.");
    assert_eq!(params, expected, "Expected {:?}, but got {:?}", expected, params);

    // When option not defined via Cli, backup to Cfg
    let cli = Cli {
        command: None,
        files: vec![],
        naming_convention: None,
        recursive: false,
        keep_dots: false,
        keep_special_chars: false,
    };
    let cfg = Cfg {
        naming_convention: NamingConvention::SnakeCase,
        recursive: true,
        keep_dots: false,
        keep_special_chars: true,
        keep_unicode: false,
        editor: String::from("vi"),
    };
    let expected = Params {
        command: None,
        files: vec![],
        naming_convention: NamingConvention::SnakeCase,
        recursive: true,
        keep_dots: false,
        keep_special_chars: true,
        editor: None,
    };
    let params = Params::new(cli, cfg)
        .expect("Params::new should have succeed. There must be an error in the test case.");
    assert_eq!(params, expected, "Expected {:?}, but got {:?}", expected, params);

    // A mix of options coming from Cli and others from Cfg
    let cli = Cli {
        command: None,
        files: vec![],
        naming_convention: Some(NamingConvention::CamelCase),
        recursive: true,
        keep_dots: false,
        keep_special_chars: false,
    };
    let cfg = Cfg {
        naming_convention: NamingConvention::SnakeCase,
        recursive: false,
        keep_dots: false,
        keep_special_chars: true,
        keep_unicode: false,
        editor: String::from("vi"),
    };
    let expected = Params {
        command: None,
        files: vec![],
        naming_convention: NamingConvention::CamelCase,
        recursive: true,
        keep_dots: false,
        keep_special_chars: true,
        editor: None,
    };
    let params = Params::new(cli, cfg)
        .expect("Params::new should have succeed. There must be an error in the test case.");
    assert_eq!(params, expected, "Expected {:?}, but got {:?}", expected, params);
}

#[test]
fn default_config_values() {
    let cfg = Cfg::default();
    assert_eq!(cfg.naming_convention, NamingConvention::SnakeCase);
    assert!(!cfg.recursive);
    assert!(!cfg.keep_dots);
    assert!(!cfg.keep_special_chars);
    assert!(!cfg.keep_unicode);
    assert_eq!(cfg.editor, "vi");
}
