use stm32wba_tftdisplay::array_string::ArrayString;
use stm32wba_tftdisplay::timing::{delay_cycles, delay_cycles_at_least_one};

#[test]
fn text_is_read_back() {
    let mut s = ArrayString::<16>::new();
    assert_eq!(s.as_str(), "");
    s.write_str("ab");
    s.write_str("");
    s.write_str("c°");
    assert_eq!(s.as_str(), "abc°");
}

#[test]
fn text_is_cut_at_the_capacity() {
    let mut s = ArrayString::<4>::new();
    s.write_str("abc");
    s.write_str("def");
    assert_eq!(s.as_str(), "abcd");
    s.write_str("x");
    assert_eq!(s.as_str(), "abcd");
    let mut none = ArrayString::<0>::new();
    none.write_str("abc");
    assert_eq!(none.as_str(), "");
}

#[test]
fn text_cut_inside_a_character_reads_as_nothing() {
    let mut s = ArrayString::<3>::new();
    s.write_str("ab°");
    assert_eq!(s.as_str(), "");
}

#[test]
fn two_writes_are_one_of_both() {
    let mut apart = ArrayString::<5>::new();
    apart.write_str("abc");
    apart.write_str("defg");
    let mut together = ArrayString::<5>::new();
    together.write_str("abcdefg");
    assert_eq!(apart.as_str(), together.as_str());
}

#[test]
fn any_number_of_writes_is_one_of_all() {
    let text = "abcdefghij";
    for part in [&text[..0], &text[..1], &text[..4], text] {
        let mut apart = ArrayString::<7>::new();
        for i in 0..part.len() {
            apart.write_str(&part[i..i + 1]);
        }
        let mut together = ArrayString::<7>::new();
        together.write_str(part);
        assert_eq!(apart.as_str(), together.as_str());
        assert_eq!(apart.as_str(), &part[..part.len().min(7)]);
    }
}

#[test]
fn numbers_are_written_in_decimal() {
    for n in [0u64, 7, 10, 99, 100, 12345, u64::MAX] {
        let mut s = ArrayString::<32>::new();
        s.write_u64(n);
        assert_eq!(s.as_str(), format!("{}", n));
    }
}

#[test]
fn signed_numbers_are_padded() {
    for n in [0i32, 5, -5, 99, 999, 1000, -999, -1000, 12345, i32::MIN, i32::MAX] {
        let mut s = ArrayString::<32>::new();
        s.write_i32_padded(n, 4);
        assert_eq!(s.as_str(), format!("{:4}", n));
    }
}

#[test]
fn delays_in_cycles() {
    assert_eq!(delay_cycles(0), 0);
    assert_eq!(delay_cycles(9), 0);
    assert_eq!(delay_cycles(1000), 100);
    assert_eq!(delay_cycles(u32::MAX), 429496729);
    assert_eq!(delay_cycles_at_least_one(0), 1);
    assert_eq!(delay_cycles_at_least_one(19), 1);
    assert_eq!(delay_cycles_at_least_one(1000), 100);
}
