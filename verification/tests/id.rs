use chatalone::id::{GeneralId, Id, UserId};

#[test]
fn gen_rev() -> () {
    let table = chatalone::id::permutation_table();
    let iter = table.iter().rev().enumerate();
    let mut res = [0u8; 32];
    for (i, v) in iter {
        res[*v as usize] = i as u8;
    }
    println!("{:?}", res.into_iter().rev().collect::<Vec<u8>>())
}

#[test]
fn uuid_test() -> () {
    let uid1 = UserId::from_decoded(114514u32);
    let uid2 = UserId::from_encoded(uid1.encode());
    assert_eq!(114514, uid2.decode())
}

#[test]
fn uuid_test2() -> () {
    for i in 0..10000u32 {
        let uid = UserId::from_decoded(i);
        println!("ID: {} ---- UID: {}", uid.decode(), uid.encode())
    }
}

#[test]
fn codec_reversing_the_table_gives_the_inverse_table() {
    // The reverse-index construction of `gen_rev` recovers the inverse table.
    let table = chatalone::id::permutation_table();
    let mut res = [0u8; 32];
    for (i, v) in table.iter().rev().enumerate() {
        res[*v as usize] = i as u8;
    }
    let rebuilt: Vec<u8> = res.into_iter().rev().collect();
    assert_eq!(rebuilt, chatalone::id::inverse_permutation_table());
}

#[test]
fn codec_matches_the_tables() {
    // Encoding agrees with a direct table-driven scramble, bit for bit.
    let table = chatalone::id::permutation_table();
    for &x in &[0u32, 1, 114514, 0xdead_beef, u32::MAX] {
        let mut out = 0u32;
        for i in 0..32 {
            if x & (1u32 << table[31 - i]) != 0 {
                out |= 1 << i;
            }
        }
        assert_eq!(Id::from_decoded(x).encode(), out);
    }
    assert_eq!(Id::from_decoded(114514).encode(), 114578);
}

#[test]
fn codec_round_trips_both_ways() {
    for &x in &[0u32, 1, 2, 42, 114514, 1919810, 0x8000_0000, u32::MAX] {
        let e = Id::from_decoded(x).encode();
        assert_eq!(Id::from_encoded(e).decode(), x);
        let d = Id::from_encoded(x).decode();
        assert_eq!(Id::from_decoded(d).encode(), x);
    }
}
