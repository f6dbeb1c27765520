use tokenizer::number::is_number;
use tokenizer::vocab::keyword_text;
use tokenizer::vocab::logical_op_text;
use tokenizer::vocab::mathematical_op_text;
use tokenizer::vocab::relop_text;
use tokenizer::vocab::text_eq;

#[test]
fn integers_are_numbers() {
    assert!(is_number("0"));
    assert!(is_number("5"));
    assert!(is_number("42"));
    assert!(is_number("007"));
    assert!(is_number("+5"));
    assert!(is_number("-17"));
    assert!(is_number("2147483648"));
}

#[test]
fn decimal_forms_are_numbers() {
    assert!(is_number("1.5"));
    assert!(is_number(".5"));
    assert!(is_number("5."));
    assert!(is_number("-3.25"));
    assert!(is_number("1e5"));
    assert!(is_number("5e3"));
    assert!(is_number("2.5E-10"));
    assert!(is_number(".5e+2"));
}

#[test]
fn special_words_are_numbers() {
    assert!(is_number("inf"));
    assert!(is_number("Inf"));
    assert!(is_number("INF"));
    assert!(is_number("infinity"));
    assert!(is_number("Infinity"));
    assert!(is_number("-inf"));
    assert!(is_number("nan"));
    assert!(is_number("NaN"));
    assert!(is_number("+nan"));
}

#[test]
fn non_numbers_are_rejected() {
    assert!(!is_number(""));
    assert!(!is_number("."));
    assert!(!is_number("+"));
    assert!(!is_number("-"));
    assert!(!is_number("abc"));
    assert!(!is_number("x1"));
    assert!(!is_number("5e"));
    assert!(!is_number("e5"));
    assert!(!is_number("1.2.3"));
    assert!(!is_number("--5"));
    assert!(!is_number("5-"));
    assert!(!is_number("1e2e3"));
    assert!(!is_number("infin"));
    assert!(!is_number("nana"));
    assert!(!is_number("1 2"));
}

#[test]
fn text_eq_compares_by_characters() {
    assert!(text_eq("let", "let"));
    assert!(!text_eq("let", "lets"));
    assert!(!text_eq("let", "leT"));
    assert!(text_eq("", ""));
    assert!(!text_eq("", "a"));
}

#[test]
fn vocabulary_membership() {
    assert!(keyword_text("structure"));
    assert!(keyword_text("dataAt"));
    assert!(!keyword_text("structures"));
    assert!(!keyword_text("and"));
    assert!(relop_text("<"));
    assert!(relop_text("!="));
    assert!(!relop_text("="));
    assert!(mathematical_op_text("="));
    assert!(mathematical_op_text("^"));
    assert!(!mathematical_op_text("<"));
    assert!(logical_op_text("bitwiseXor"));
    assert!(!logical_op_text("nand"));
}
