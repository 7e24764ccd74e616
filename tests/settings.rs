use oubench::args::{apply_arg, parse_args, parse_unsigned};
use oubench::config::{ArgError, Config, Mode, Output};

fn parse(args: &[&str]) -> Result<Config, ArgError> {
    let v: Vec<Vec<u8>> = args.iter().map(|a| a.as_bytes().to_vec()).collect();
    parse_args(&v)
}

#[test]
fn defaults_without_arguments() {
    let c = parse(&[]).unwrap();
    assert_eq!(c, Config::default_settings());
    assert_eq!(c.n, 500_000);
    assert_eq!(c.runs, 1000);
    assert_eq!(c.warmup, 5);
    assert_eq!(c.seed, 1);
    assert_eq!(c.mode, Mode::Full);
    assert_eq!(c.output, Output::Text);
}

#[test]
fn every_option_is_read() {
    let c = parse(&["--n=5", "--runs=3", "--warmup=0", "--seed=9", "--mode=gn", "--output=json"]).unwrap();
    assert_eq!(c.n, 5);
    assert_eq!(c.runs, 3);
    assert_eq!(c.warmup, 0);
    assert_eq!(c.seed, 9);
    assert_eq!(c.mode, Mode::Gn);
    assert_eq!(c.output, Output::Json);
    assert_eq!(parse(&["--mode=ou"]).unwrap().mode, Mode::Ou);
    assert_eq!(parse(&["--mode=gn", "--mode=full"]).unwrap().mode, Mode::Full);
}

#[test]
fn other_arguments_are_ignored() {
    let c = parse(&["n=3", "-n=3", "--colour=red", "--", "--verbose"]).unwrap();
    assert_eq!(c, Config::default_settings());
}

#[test]
fn seed_keeps_low_bits() {
    assert_eq!(parse(&["--seed=4294967297"]).unwrap().seed, 1);
    assert_eq!(parse(&["--seed=18446744073709551615"]).unwrap().seed, u32::MAX);
    assert_eq!(parse(&["--seed=18446744073709551616"]), Err(ArgError::SeedNotInteger));
}

#[test]
fn each_error_has_its_input() {
    assert_eq!(parse(&["--n=abc"]), Err(ArgError::NNotInteger));
    assert_eq!(parse(&["--n"]), Err(ArgError::NNotInteger));
    assert_eq!(parse(&["--n=1"]), Err(ArgError::NTooSmall));
    assert_eq!(parse(&["--runs=-1"]), Err(ArgError::RunsNotInteger));
    assert_eq!(parse(&["--runs=0"]), Err(ArgError::RunsTooSmall));
    assert_eq!(parse(&["--warmup=x"]), Err(ArgError::WarmupNotInteger));
    assert_eq!(parse(&["--seed="]), Err(ArgError::SeedNotInteger));
    assert_eq!(parse(&["--mode=fast"]), Err(ArgError::UnknownMode));
    assert_eq!(parse(&["--output=yaml"]), Err(ArgError::UnknownOutput));
}

#[test]
fn first_refused_argument_decides() {
    assert_eq!(parse(&["--mode=x", "--n=1"]), Err(ArgError::UnknownMode));
    assert_eq!(parse(&["--n=1", "--mode=x"]), Err(ArgError::NTooSmall));
}

#[test]
fn value_runs_to_end_after_first_equals() {
    assert_eq!(parse(&["--n=2=3"]), Err(ArgError::NNotInteger));
    let c = apply_arg(Config::default_settings(), b"--n=2").unwrap();
    assert_eq!(c.n, 2);
}

#[test]
fn unsigned_text_forms() {
    assert_eq!(parse_unsigned(b"0", 10), Some(0));
    assert_eq!(parse_unsigned(b"+17", 100), Some(17));
    assert_eq!(parse_unsigned(b"007", 100), Some(7));
    assert_eq!(parse_unsigned(b"+", 100), None);
    assert_eq!(parse_unsigned(b"", 100), None);
    assert_eq!(parse_unsigned(b"-3", 100), None);
    assert_eq!(parse_unsigned(b" 3", 100), None);
    assert_eq!(parse_unsigned(b"101", 100), None);
    assert_eq!(parse_unsigned(b"100", 100), Some(100));
    assert_eq!(parse_unsigned(b"18446744073709551615", u64::MAX), Some(u64::MAX));
    assert_eq!(parse_unsigned(b"99999999999999999999999", u64::MAX), None);
}

#[test]
fn ou_mode_fills_increments_once() {
    let p = Mode::Ou.phases();
    assert!(p.prefill && !p.generate && p.simulate);
    let p = Mode::Gn.phases();
    assert!(!p.prefill && p.generate && !p.simulate);
    let p = Mode::Full.phases();
    assert!(!p.prefill && p.generate && p.simulate);
}
