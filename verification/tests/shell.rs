use som_interpreter::numerals::to_decimal;
use som_interpreter::shell::{shell_command, trim, ShellInput};

#[test]
fn shell_line_kinds() {
    assert!(matches!(shell_command("", 0), ShellInput::EndOfInput));
    assert!(matches!(shell_command("   \n", 0), ShellInput::Blank));
    assert!(matches!(shell_command("\n", 3), ShellInput::Blank));
    assert!(matches!(shell_command("  exit \n", 0), ShellInput::Exit));
    assert!(matches!(shell_command("exitnow\n", 0), ShellInput::Evaluate(_)));
}

#[test]
fn shell_wraps_the_expression_in_a_class() {
    match shell_command("  3 + 4\n", 12) {
        ShellInput::Evaluate(src) => assert_eq!(
            src,
            "ShellClass_12 = ( run: it = ( | tmp | tmp := (3 + 4). 'it = ' print. ^tmp println ) )"
        ),
        _ => panic!("expected an expression to evaluate"),
    }
}

#[test]
fn decimal_notation() {
    assert_eq!(to_decimal(0), "0");
    assert_eq!(to_decimal(7), "7");
    assert_eq!(to_decimal(10), "10");
    assert_eq!(to_decimal(1234567890), "1234567890");
    assert_eq!(to_decimal(u64::MAX), "18446744073709551615");
}

#[test]
fn trimming_removes_whitespace_at_both_ends_only() {
    assert_eq!(trim("\t a  b \n"), "a  b");
    assert_eq!(trim("   "), "");
    assert_eq!(trim("x"), "x");
}
