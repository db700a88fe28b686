use sentiment_ledger::binary64::{compound_from_bits, rounded_magnitude, share_from_bits};
use sentiment_ledger::sentiment::{analyze_message, SentimentResult, MAX_MESSAGE_LENGTH};

#[test]
fn every_ten_thousandth_is_read_back() {
    for k in -10_000..=10_000i32 {
        let bits = (f64::from(k) / 10000.0).to_bits();
        assert_eq!(compound_from_bits(bits), Some(k), "at {}", k);
    }
}

#[test]
fn shares_are_read_back() {
    for k in [0u32, 1, 2, 3333, 9999, 10_000, 10_001, 123_456_789, u32::MAX] {
        let bits = (f64::from(k) / 10000.0).to_bits();
        assert_eq!(share_from_bits(bits), Some(k), "at {}", k);
    }
}

#[test]
fn exact_binary_fractions_round_to_the_nearest() {
    assert_eq!(compound_from_bits(0.5f64.to_bits()), Some(5000));
    assert_eq!(compound_from_bits(0.25f64.to_bits()), Some(2500));
    assert_eq!(compound_from_bits((-0.125f64).to_bits()), Some(-1250));
    // 2^-14 is 0.6103515625 ten-thousandths, 2^-15 is 0.30517578125.
    assert_eq!(compound_from_bits(0.00006103515625f64.to_bits()), Some(1));
    assert_eq!(compound_from_bits(0.000030517578125f64.to_bits()), Some(0));
    assert_eq!(compound_from_bits((-0.00006103515625f64).to_bits()), Some(-1));
    // 2^-5 is 312.5 ten-thousandths: a half goes away from zero.
    assert_eq!(compound_from_bits(0.03125f64.to_bits()), Some(313));
    assert_eq!(compound_from_bits((-0.03125f64).to_bits()), Some(-313));
}

#[test]
fn zeros_and_tiny_numbers_are_zero() {
    assert_eq!(compound_from_bits(0.0f64.to_bits()), Some(0));
    assert_eq!(compound_from_bits((-0.0f64).to_bits()), Some(0));
    assert_eq!(share_from_bits((-0.0f64).to_bits()), Some(0));
    assert_eq!(compound_from_bits(f64::MIN_POSITIVE.to_bits()), Some(0));
    assert_eq!(compound_from_bits(1u64), Some(0));
    assert_eq!(share_from_bits((-0.00001f64).to_bits()), Some(0));
    assert_eq!(rounded_magnitude(1e-300f64.to_bits()), Some(0));
}

#[test]
fn what_is_no_number_is_refused() {
    assert_eq!(compound_from_bits(f64::NAN.to_bits()), None);
    assert_eq!(compound_from_bits(f64::INFINITY.to_bits()), None);
    assert_eq!(compound_from_bits(f64::NEG_INFINITY.to_bits()), None);
    assert_eq!(share_from_bits(f64::NAN.to_bits()), None);
    assert_eq!(rounded_magnitude(f64::INFINITY.to_bits()), None);
}

#[test]
fn what_is_out_of_range_is_refused() {
    assert_eq!(compound_from_bits(1.0f64.to_bits()), Some(10_000));
    assert_eq!(compound_from_bits((-1.0f64).to_bits()), Some(-10_000));
    assert_eq!(compound_from_bits(1.00004f64.to_bits()), Some(10_000));
    assert_eq!(compound_from_bits(1.0001f64.to_bits()), None);
    assert_eq!(compound_from_bits((-1.0001f64).to_bits()), None);
    assert_eq!(compound_from_bits(2.0f64.to_bits()), None);
    assert_eq!(compound_from_bits(f64::MAX.to_bits()), None);
    assert_eq!(share_from_bits((-0.5f64).to_bits()), None);
    assert_eq!(share_from_bits(429_496.7295f64.to_bits()), Some(u32::MAX));
    assert_eq!(share_from_bits(429_496.73f64.to_bits()), None);
    assert_eq!(share_from_bits(524_288.0f64.to_bits()), None);
    assert_eq!(share_from_bits(1e300f64.to_bits()), None);
    assert_eq!(rounded_magnitude((-429_496.7295f64).to_bits()), Some(u32::MAX));
}

#[test]
fn rounding_agrees_with_the_machine() {
    let mut x: f64 = 1.0;
    for _ in 0..2000 {
        x = (x * 1.000_123_4 + 0.000_031_7) % 1.0;
        let expected = (x * 10000.0).round() as i32;
        let exact_half = (x * 10000.0).fract() == 0.5;
        if !exact_half {
            assert_eq!(compound_from_bits(x.to_bits()), Some(expected), "at {}", x);
            assert_eq!(compound_from_bits((-x).to_bits()), Some(-expected), "at -{}", x);
        }
    }
}

#[test]
fn a_sample_is_built_from_four_patterns() {
    let s = SentimentResult::from_bits(
        0.254f64.to_bits(),
        0.746f64.to_bits(),
        0.0f64.to_bits(),
        (-0.4404f64).to_bits(),
    )
    .unwrap();
    assert_eq!(s.negative(), 2540);
    assert_eq!(s.neutral(), 7460);
    assert_eq!(s.positive(), 0);
    assert_eq!(s.compound(), -4404);
    assert_eq!(Some(s), SentimentResult::from_scores(2540, 7460, 0, -4404));
}

#[test]
fn one_bad_pattern_spoils_the_sample() {
    let ok = 0.5f64.to_bits();
    let nan = f64::NAN.to_bits();
    let negative = (-0.5f64).to_bits();
    let large = 1.5f64.to_bits();
    assert!(SentimentResult::from_bits(ok, ok, ok, ok).is_some());
    assert!(SentimentResult::from_bits(nan, ok, ok, ok).is_none());
    assert!(SentimentResult::from_bits(ok, negative, ok, ok).is_none());
    assert!(SentimentResult::from_bits(ok, ok, nan, ok).is_none());
    assert!(SentimentResult::from_bits(ok, ok, ok, large).is_none());
    assert!(SentimentResult::from_bits(large, large, large, negative).is_some());
}

#[test]
fn text_without_words_scores_zero() {
    let s = analyze_message("").unwrap();
    assert_eq!(s, SentimentResult::from_scores(0, 0, 0, 0).unwrap());
}

#[test]
fn praise_scores_above_zero_and_abuse_below() {
    let praise = analyze_message("I love this, it is a great and wonderful day").unwrap();
    assert!(praise.compound() > 0);
    assert!(praise.positive() > 0);
    let abuse = analyze_message("I hate this, it is a horrible and terrible day").unwrap();
    assert!(abuse.compound() < 0);
    assert!(abuse.negative() > 0);
    let plain = analyze_message("the table has four legs").unwrap();
    assert_eq!(plain.compound(), 0);
    assert_eq!(plain.neutral(), 10_000);
}

#[test]
fn every_text_has_a_sample_within_the_scale() {
    let long = "good bad ugly!!! ".repeat(500);
    let texts = [
        "",
        " ",
        "a",
        "!!!!!!!!!!",
        "??????",
        "but",
        "not good",
        "never so good, without doubt the best!!!",
        "at least it is not horrible",
        "kind of GREAT but VERY very bad",
        "I HATE HATE HATE this terrible awful horrible thing",
        "the shit is the bomb, to die for, yeah right",
        "\u{1F600} \u{1F62D} \u{2764}",
        "caf\u{e9} na\u{ef}ve \u{4f60}\u{597d}",
        long.as_str(),
    ];
    for text in texts {
        let sample = analyze_message(text);
        assert!(sample.is_some(), "no sample for {:?}", text);
        let sample = sample.unwrap();
        assert!(sample.negative() <= 10_000, "negative of {:?}", text);
        assert!(sample.neutral() <= 10_000, "neutral of {:?}", text);
        assert!(sample.positive() <= 10_000, "positive of {:?}", text);
        assert!((-10_000..=10_000).contains(&sample.compound()), "compound of {:?}", text);
        let whole = sample.negative() + sample.neutral() + sample.positive();
        assert!(whole == 0 || (9_998..=10_002).contains(&whole), "shares of {:?}", text);
    }
}

#[test]
fn a_text_with_a_word_has_shares_of_one_whole() {
    let texts = [
        "ab",
        "Zz",
        "!!ok??",
        "x yz",
        "good",
        "not bad at all, but HORRIBLE!!!!!!",
        "\u{1F600}it\u{1F600}",
        "the quick brown fox jumps over the lazy dog",
        "I love love LOVE it ??? !!! ??? !!!",
        "sucks sucks sucks sucks sucks sucks",
    ];
    for text in texts {
        let sample = analyze_message(text).unwrap();
        let whole = sample.negative() + sample.neutral() + sample.positive();
        assert!((9_998..=10_002).contains(&whole), "shares of {:?} are {}", text, whole);
    }
}

#[test]
fn a_text_without_a_token_has_no_shares() {
    for text in ["", "a", "a b c", "! ? .", " \t\n "] {
        let sample = analyze_message(text).unwrap();
        assert_eq!(sample, SentimentResult::from_scores(0, 0, 0, 0).unwrap(), "for {:?}", text);
    }
}

#[test]
fn a_text_beyond_the_longest_has_no_sample() {
    assert_eq!(MAX_MESSAGE_LENGTH, 33_554_432);
    let text = "!".repeat(MAX_MESSAGE_LENGTH + 1);
    assert!(analyze_message(&text).is_none());
    let wide = "\u{e9}".repeat(MAX_MESSAGE_LENGTH + 1);
    assert!(analyze_message(&wide).is_none());
}

#[test]
fn a_long_text_within_the_longest_has_a_sample() {
    let mut text = String::from("good ");
    text.push_str(&"!".repeat(1_000_000));
    assert!(text.chars().count() <= MAX_MESSAGE_LENGTH);
    let sample = analyze_message(&text).unwrap();
    assert!(sample.positive() <= 10_000);
    assert!(sample.compound() > 0);
    let whole = sample.negative() + sample.neutral() + sample.positive();
    assert!((9_998..=10_002).contains(&whole));
}
