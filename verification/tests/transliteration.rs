use course_log::numerals::chinese_num_to_int;
use course_log::numerals::chinese_suffix_to_letter;
use course_log::transliterate::translate_title_algorithmic;

#[test]
fn test_chinese_num_to_int() {
    assert_eq!(chinese_num_to_int("一"), Some(1));
    assert_eq!(chinese_num_to_int("十"), Some(10));
    assert_eq!(chinese_num_to_int("十一"), Some(11));
    assert_eq!(chinese_num_to_int("二十"), Some(20));
    assert_eq!(chinese_num_to_int("二十一"), Some(21));
    assert_eq!(chinese_num_to_int("三十四"), Some(34));
    assert_eq!(chinese_num_to_int("零"), Some(0));
}

#[test]
fn test_translate_title_algorithmic() {
    assert_eq!(translate_title_algorithmic("Lecture", "第二十一讲"), "Lecture 21");
    assert_eq!(translate_title_algorithmic("Homework", "作业二"), "Homework 2");
    assert_eq!(translate_title_algorithmic("Quiz", "测验十"), "Quiz 10");
    assert_eq!(translate_title_algorithmic("Midterm", "期中考试一"), "Midterm 1");
    assert_eq!(translate_title_algorithmic("Midterm", "期中考试"), "Midterm");
    assert_eq!(translate_title_algorithmic("Homework", "作业三甲"), "Homework 3A");
    // Fallback to original
    assert_eq!(translate_title_algorithmic("Other", "Something else"), "Something else");
}

/// The canonical numeral for a value between 1 and 99.
fn canonical_numeral(n: u32) -> String {
    const DIGITS: [char; 10] = ['零', '一', '二', '三', '四', '五', '六', '七', '八', '九'];
    let mut s = String::new();
    if n <= 9 {
        s.push(DIGITS[n as usize]);
    } else if n == 10 {
        s.push('十');
    } else if n <= 19 {
        s.push('十');
        s.push(DIGITS[(n % 10) as usize]);
    } else if n % 10 == 0 {
        s.push(DIGITS[(n / 10) as usize]);
        s.push('十');
    } else {
        s.push(DIGITS[(n / 10) as usize]);
        s.push('十');
        s.push(DIGITS[(n % 10) as usize]);
    }
    s
}

#[test]
fn numeral_round_trip_all_two_digit_values() {
    for n in 1..=99u32 {
        assert_eq!(chinese_num_to_int(&canonical_numeral(n)), Some(n), "value {}", n);
    }
}

#[test]
fn numeral_hundreds_and_failures() {
    assert_eq!(chinese_num_to_int("五百"), Some(500));
    assert_eq!(chinese_num_to_int("五百二十三"), Some(523));
    assert_eq!(chinese_num_to_int("五百十三"), Some(513));
    assert_eq!(chinese_num_to_int("一百"), Some(100));
    assert_eq!(chinese_num_to_int(""), None);
    assert_eq!(chinese_num_to_int("abc"), None);
    assert_eq!(chinese_num_to_int("百"), None);
    assert_eq!(chinese_num_to_int("第"), None);
}

#[test]
fn numeral_rejects_tokens_outside_the_grammar() {
    // the grammar must consume the whole token: leading digits with
    // trailing characters the grammar does not place are no match,
    // and "no match" is never conflated with zero
    assert_eq!(chinese_num_to_int("五五"), None);
    assert_eq!(chinese_num_to_int("零零"), None);
    assert_eq!(chinese_num_to_int("二零"), None);
    assert_eq!(chinese_num_to_int("十零"), None);
    assert_eq!(chinese_num_to_int("零十五"), None);
    assert_eq!(chinese_num_to_int("二十零"), None);
    assert_eq!(chinese_num_to_int("五百五五"), None);
    assert_eq!(chinese_num_to_int("零百五"), None);
    assert_eq!(chinese_num_to_int("十一一"), None);
}

#[test]
fn suffix_letters() {
    assert_eq!(chinese_suffix_to_letter('甲'), Some('A'));
    assert_eq!(chinese_suffix_to_letter('乙'), Some('B'));
    assert_eq!(chinese_suffix_to_letter('丙'), Some('C'));
    assert_eq!(chinese_suffix_to_letter('丁'), None);
}

#[test]
fn transliterate_more_patterns() {
    // the ordinal session patterns take the English kind from the kind column
    assert_eq!(translate_title_algorithmic("Discussion", "第五次"), "Discussion 5");
    assert_eq!(translate_title_algorithmic("Weird", "第二讲"), "Other 2");
    // exam patterns ignore the kind column
    assert_eq!(translate_title_algorithmic("Other", "期末考试"), "Final");
    assert_eq!(translate_title_algorithmic("Other", "期末考试二"), "Final 2");
    // a bare kind-name prefix yields the bare English name
    assert_eq!(translate_title_algorithmic("Homework", "讲座"), "Lecture");
    assert_eq!(translate_title_algorithmic("Lab", "项目"), "Project");
    assert_eq!(translate_title_algorithmic("Quiz", "实验四"), "Lab 4");
    assert_eq!(translate_title_algorithmic("Quiz", "讨论二乙"), "Discussion 2B");
}

#[test]
fn transliterate_zero_is_a_numeral() {
    // the zero numeral is a valid value, distinct from "no match"
    assert_eq!(translate_title_algorithmic("Homework", "作业零"), "Homework 0");
}

#[test]
fn transliterate_unparseable_remainder_falls_through() {
    // a matching prefix with an unparseable remainder must yield the
    // original title, not a partially built label
    assert_eq!(translate_title_algorithmic("Homework", "作业abc"), "作业abc");
    assert_eq!(translate_title_algorithmic("Homework", "作业五五"), "作业五五");
    assert_eq!(translate_title_algorithmic("Lecture", "第abc讲"), "第abc讲");
    assert_eq!(translate_title_algorithmic("Midterm", "期中考试abc"), "期中考试abc");
}
