use minigrep::Config;
use minigrep::Error;
use minigrep::run_search;

fn args_of(parts: &[&str]) -> Vec<String> {
    let mut args: Vec<String> = Vec::new();
    for part in parts {
        args.push(part.to_string());
    }
    args
}

#[test]
fn build_rejects_one_argument() {
    let args = args_of(&["minigrep"]);
    assert_eq!(
        Err(Error::InsufficientArguments),
        Config::build(&args, false).map(|c| c.query)
    );
}

#[test]
fn build_rejects_two_arguments() {
    let args = args_of(&["minigrep", "duct"]);
    assert!(matches!(
        Config::build(&args, false),
        Err(Error::InsufficientArguments)
    ));
}

#[test]
fn build_accepts_three_arguments() {
    let args = args_of(&["minigrep", "duct", "poem.txt"]);
    let config = Config::build(&args, false).unwrap();
    assert_eq!("duct", config.query);
    assert_eq!("poem.txt", config.file_path);
    assert!(!config.ignore_case);
}

#[test]
fn build_keeps_the_case_toggle() {
    let args = args_of(&["minigrep", "duct", "poem.txt"]);
    assert!(Config::build(&args, true).unwrap().ignore_case);
    assert!(!Config::build(&args, false).unwrap().ignore_case);
}

#[test]
fn error_variants_are_distinct() {
    let read_error = Error::FileReadError {
        cause: "no such file".to_string(),
    };
    assert_ne!(Error::InsufficientArguments, read_error);
}

#[test]
fn run_search_dispatches_on_case_toggle() {
    let args = args_of(&["minigrep", "safe", "poem.txt"]);
    let content: &str = "Rust:\nSaFe, FaSt, Productive.\nPick three.";

    let sensitive = Config::build(&args, false).unwrap();
    assert_eq!(Vec::<&str>::new(), run_search(&sensitive, content));

    let insensitive = Config::build(&args, true).unwrap();
    assert_eq!(
        vec!["SaFe, FaSt, Productive."],
        run_search(&insensitive, content)
    );
}
