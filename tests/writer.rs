use galette::writer::{
    get_size, is_olmc, make_chip, make_fuse, make_pin, make_row, make_spaces, pin_to_olmc, GAL16V8,
    GAL20RA10, GAL20V8, GAL22V10, INPUT, MODE3,
};

fn names(n: usize) -> Vec<String> {
    (1..=n).map(|i| format!("N{}", i)).collect()
}

#[test]
fn spaces_are_appended() {
    let mut buf = String::from("ab");
    make_spaces(&mut buf, 3);
    assert_eq!(buf, "ab   ");
    make_spaces(&mut buf, 0);
    assert_eq!(buf, "ab   ");
}

#[test]
fn row_groups_of_four() {
    let data: Vec<u8> = vec![0, 0, 0, 0, 0, 0, 0, 0, 1, 0, 0, 0, 1, 7, 0, 0];
    let mut buf = String::new();
    make_row(&mut buf, 8, 1, &data);
    assert_eq!(buf, "\n  1  -xxx --xx");
}

#[test]
fn row_number_wider_than_three() {
    let data = vec![1u8; 2 * 1001];
    let mut buf = String::new();
    make_row(&mut buf, 2, 1000, &data);
    assert_eq!(buf, "\n1000  --");
}

#[test]
fn fuse_listing_layout() {
    let mut fuses = vec![0u8; 44 * 132];
    fuses[0] = 1;
    let owned = names(24);
    let pins: Vec<&str> = owned.iter().map(|s| s.as_str()).collect();
    let xor = vec![0u8; 10];
    let s1 = vec![1u8; 10];
    let out = make_fuse(GAL22V10, &pins, &fuses, &xor, &[0u8; 8], &s1);
    let ar_row = format!("\n\nAR\n  0  -xxx{}", " xxxx".repeat(10));
    assert!(out.starts_with(&ar_row));
    let after = &out[ar_row.len()..];
    assert!(after.starts_with("\n\nPin 23 = N23          S0 = 0   S1 = 1\n  1  xxxx"));
    assert!(out.contains("\n\nPin 14 = N14          S0 = 0   S1 = 1"));
    assert!(out.contains(&format!("\n\nSP\n131 {}", " xxxx".repeat(11))));
    assert!(out.ends_with("\n\n"));
    assert_eq!(out.matches("\n\nPin ").count(), 10);
    // 132 rows of 4 + 44 + 11 characters.
    assert_eq!(out.matches('x').count(), 44 * 132 - 1);
}

#[test]
fn fuse_listing_16v8() {
    let mut fuses = vec![1u8; 32 * 64];
    fuses[32 * 63 + 31] = 0;
    let owned = names(20);
    let pins: Vec<&str> = owned.iter().map(|s| s.as_str()).collect();
    let mut xor = vec![0u8; 8];
    xor[0] = 1;
    let mut ac1 = vec![0u8; 8];
    ac1[7] = 1;
    let out = make_fuse(GAL16V8, &pins, &fuses, &xor, &ac1, &[]);
    assert!(out.starts_with("\n\nPin 19 = N19          XOR = 1   AC1 = 0\n  0  ---- "));
    assert!(out.contains("\n\nPin 12 = N12          XOR = 0   AC1 = 1\n 56  "));
    assert!(out.ends_with("\n 63  ---- ---- ---- ---- ---- ---- ---- ---x\n\n"));
    assert!(!out.contains("AR"));
}

#[test]
fn fuse_listing_20ra10_has_s0_only() {
    let fuses = vec![0u8; 40 * 80];
    let owned = names(24);
    let pins: Vec<&str> = owned.iter().map(|s| s.as_str()).collect();
    let out = make_fuse(GAL20RA10, &pins, &fuses, &[0u8; 10], &[], &[]);
    assert!(out.starts_with("\n\nPin 23 = N23          S0 = 0\n  0  xxxx"));
    assert!(out.contains("\n 79  "));
    assert!(!out.contains("S1"));
}

#[test]
fn chip_diagram_16v8() {
    let owned = names(20);
    let pins: Vec<&str> = owned.iter().map(|s| s.as_str()).collect();
    let out = make_chip(GAL16V8, &pins);
    let mut expected = String::from("\n\n");
    expected.push_str(&" ".repeat(31));
    expected.push_str(" GAL16V8\n\n");
    expected.push_str(&" ".repeat(26));
    expected.push_str("-------\\___/-------\n");
    for n in 0..10 {
        if n > 0 {
            expected.push_str(&" ".repeat(26));
            expected.push_str("|                 |\n");
        }
        let left = &pins[n];
        expected.push_str(&" ".repeat(25 - left.len()));
        expected.push_str(&format!("{} | {:>2}           {:>2} | {}\n", left, n + 1, 20 - n, pins[19 - n]));
    }
    expected.push_str(&" ".repeat(26));
    expected.push_str("-------------------\n");
    assert_eq!(out, expected);
    assert!(out.contains("                       N1 |  1           20 | N20\n"));
}

#[test]
fn chip_titles() {
    let owned = names(24);
    let pins: Vec<&str> = owned.iter().map(|s| s.as_str()).collect();
    assert!(make_chip(GAL20RA10, &pins).starts_with(&format!("\n\n{}GAL20RA10\n\n", " ".repeat(31))));
    assert!(make_chip(GAL22V10, &pins).starts_with(&format!("\n\n{} GAL22V10\n\n", " ".repeat(31))));
    assert!(make_chip(GAL20V8, &pins).contains("N12 | 12           13 | N13\n"));
}

#[test]
fn pin_table_16v8_mode3() {
    let pins: Vec<&str> = vec![
        "CLK", "I2", "I3", "I4", "I5", "I6", "I7", "I8", "I9", "GND", "OE", "O12", "O13", "O14",
        "O15", "O16", "O17", "O18", "O19", "VCC",
    ];
    let types = [0, 0, 0, 0, 0, 0, INPUT, 1, 0, 0, 0, 0];
    let out = make_pin(GAL16V8, &pins, MODE3, &types);
    assert!(out.starts_with("\n\n Pin # | Name     | Pin Type\n-----------------------------\n"));
    assert!(out.contains("   1   | CLK      | Clock\n"));
    assert!(out.contains("   2   | I2       | Input\n"));
    assert!(out.contains("  10   | GND      | GND\n"));
    assert!(out.contains("  11   | OE       | /OE\n"));
    assert!(out.contains("  17   | O17      | NC\n"));
    assert!(out.contains("  18   | O18      | Input\n"));
    assert!(out.contains("  19   | O19      | Output\n"));
    assert!(out.ends_with("  20   | VCC      | VCC\n\n"));
}

#[test]
fn pin_table_22v10() {
    let owned = names(24);
    let pins: Vec<&str> = owned.iter().map(|s| s.as_str()).collect();
    let types = [1, 1, 1, 1, 1, 1, 1, 1, 1, 1, 1, 1];
    let out = make_pin(GAL22V10, &pins, MODE3, &types);
    assert!(out.contains("   1   | N1       | Clock/Input\n"));
    assert!(out.contains("  12   | N12      | GND\n"));
    assert!(out.contains("  13   | N13      | Input\n"));
    assert!(out.contains("  23   | N23      | Output\n"));
    assert!(out.ends_with("  24   | N24      | VCC\n\n"));
}

#[test]
fn pin_table_20v8_without_mode3() {
    let owned = names(24);
    let pins: Vec<&str> = owned.iter().map(|s| s.as_str()).collect();
    let out = make_pin(GAL20V8, &pins, 1, &[0; 12]);
    assert!(out.contains("   1   | N1       | Input\n"));
    assert!(out.contains("  13   | N13      | Input\n"));
    assert!(out.contains("  15   | N15      | NC\n"));
}

#[test]
fn olmc_pin_lookup() {
    assert!(is_olmc(GAL16V8, 12) && is_olmc(GAL16V8, 19) && !is_olmc(GAL16V8, 20));
    assert!(is_olmc(GAL22V10, 25) && !is_olmc(GAL20RA10, 24));
    assert!(!is_olmc(GAL20V8, 14));
    assert_eq!(pin_to_olmc(GAL20V8, 22), 7);
    assert_eq!(pin_to_olmc(GAL22V10, 14), 0);
    assert_eq!(pin_to_olmc(GAL16V8, 19), 7);
}

#[test]
fn olmc_sizes() {
    let sizes: Vec<i32> = (0..12).map(|i| get_size(GAL22V10, i)).collect();
    assert_eq!(sizes, vec![9, 11, 13, 15, 17, 17, 15, 13, 11, 9, 1, 1]);
    assert_eq!(get_size(GAL16V8, 3), 8);
    assert_eq!(get_size(GAL20RA10, 9), 8);
}
