//! The values of the literals that the generated code holds.
use crate::codegen::yul_run::{number, spelled};
use vstd::prelude::*;

verus! {

proof fn lemma_n_0()
    ensures
        number("0"@) == 0,
{
    reveal_strlit("0");
    reveal_strlit("0x");
    let t = "0"@;
    let s = t;
    let s0 = Seq::<char>::empty();
    let s1 = s0.push('0');
    assert(spelled(s0, 10) == 0);
    assert(s1.drop_last() =~= s0);
    assert(spelled(s1, 10) == 0);
    assert(s =~= s1);
}

proof fn lemma_n_1()
    ensures
        number("1"@) == 1,
{
    reveal_strlit("1");
    reveal_strlit("0x");
    let t = "1"@;
    let s = t;
    let s0 = Seq::<char>::empty();
    let s1 = s0.push('1');
    assert(spelled(s0, 10) == 0);
    assert(s1.drop_last() =~= s0);
    assert(spelled(s1, 10) == 1);
    assert(s =~= s1);
}

proof fn lemma_n_2()
    ensures
        number("2"@) == 2,
{
    reveal_strlit("2");
    reveal_strlit("0x");
    let t = "2"@;
    let s = t;
    let s0 = Seq::<char>::empty();
    let s1 = s0.push('2');
    assert(spelled(s0, 10) == 0);
    assert(s1.drop_last() =~= s0);
    assert(spelled(s1, 10) == 2);
    assert(s =~= s1);
}

proof fn lemma_n_3()
    ensures
        number("3"@) == 3,
{
    reveal_strlit("3");
    reveal_strlit("0x");
    let t = "3"@;
    let s = t;
    let s0 = Seq::<char>::empty();
    let s1 = s0.push('3');
    assert(spelled(s0, 10) == 0);
    assert(s1.drop_last() =~= s0);
    assert(spelled(s1, 10) == 3);
    assert(s =~= s1);
}

proof fn lemma_n_4()
    ensures
        number("4"@) == 4,
{
    reveal_strlit("4");
    reveal_strlit("0x");
    let t = "4"@;
    let s = t;
    let s0 = Seq::<char>::empty();
    let s1 = s0.push('4');
    assert(spelled(s0, 10) == 0);
    assert(s1.drop_last() =~= s0);
    assert(spelled(s1, 10) == 4);
    assert(s =~= s1);
}

proof fn lemma_n_31()
    ensures
        number("31"@) == 31,
{
    reveal_strlit("31");
    reveal_strlit("0x");
    let t = "31"@;
    assert(t[1] != "0x"@[1]);
    assert(t.subrange(0, 2)[1] == t[1]);
    let s = t;
    let s0 = Seq::<char>::empty();
    let s1 = s0.push('3');
    let s2 = s1.push('1');
    assert(spelled(s0, 10) == 0);
    assert(s1.drop_last() =~= s0);
    assert(spelled(s1, 10) == 3);
    assert(s2.drop_last() =~= s1);
    assert(spelled(s2, 10) == 31);
    assert(s =~= s2);
}

proof fn lemma_n_32()
    ensures
        number("32"@) == 32,
{
    reveal_strlit("32");
    reveal_strlit("0x");
    let t = "32"@;
    assert(t[1] != "0x"@[1]);
    assert(t.subrange(0, 2)[1] == t[1]);
    let s = t;
    let s0 = Seq::<char>::empty();
    let s1 = s0.push('3');
    let s2 = s1.push('2');
    assert(spelled(s0, 10) == 0);
    assert(s1.drop_last() =~= s0);
    assert(spelled(s1, 10) == 3);
    assert(s2.drop_last() =~= s1);
    assert(spelled(s2, 10) == 32);
    assert(s =~= s2);
}

proof fn lemma_n_96()
    ensures
        number("96"@) == 96,
{
    reveal_strlit("96");
    reveal_strlit("0x");
    let t = "96"@;
    assert(t[1] != "0x"@[1]);
    assert(t.subrange(0, 2)[1] == t[1]);
    let s = t;
    let s0 = Seq::<char>::empty();
    let s1 = s0.push('9');
    let s2 = s1.push('6');
    assert(spelled(s0, 10) == 0);
    assert(s1.drop_last() =~= s0);
    assert(spelled(s1, 10) == 9);
    assert(s2.drop_last() =~= s1);
    assert(spelled(s2, 10) == 96);
    assert(s =~= s2);
}

proof fn lemma_n_128()
    ensures
        number("128"@) == 128,
{
    reveal_strlit("128");
    reveal_strlit("0x");
    let t = "128"@;
    assert(t[1] != "0x"@[1]);
    assert(t.subrange(0, 2)[1] == t[1]);
    let s = t;
    let s0 = Seq::<char>::empty();
    let s1 = s0.push('1');
    let s2 = s1.push('2');
    let s3 = s2.push('8');
    assert(spelled(s0, 10) == 0);
    assert(s1.drop_last() =~= s0);
    assert(spelled(s1, 10) == 1);
    assert(s2.drop_last() =~= s1);
    assert(spelled(s2, 10) == 12);
    assert(s3.drop_last() =~= s2);
    assert(spelled(s3, 10) == 128);
    assert(s =~= s3);
}

proof fn lemma_n_224()
    ensures
        number("224"@) == 224,
{
    reveal_strlit("224");
    reveal_strlit("0x");
    let t = "224"@;
    assert(t[1] != "0x"@[1]);
    assert(t.subrange(0, 2)[1] == t[1]);
    let s = t;
    let s0 = Seq::<char>::empty();
    let s1 = s0.push('2');
    let s2 = s1.push('2');
    let s3 = s2.push('4');
    assert(spelled(s0, 10) == 0);
    assert(s1.drop_last() =~= s0);
    assert(spelled(s1, 10) == 2);
    assert(s2.drop_last() =~= s1);
    assert(spelled(s2, 10) == 22);
    assert(s3.drop_last() =~= s2);
    assert(spelled(s3, 10) == 224);
    assert(s =~= s3);
}

proof fn lemma_n_256()
    ensures
        number("256"@) == 256,
{
    reveal_strlit("256");
    reveal_strlit("0x");
    let t = "256"@;
    assert(t[1] != "0x"@[1]);
    assert(t.subrange(0, 2)[1] == t[1]);
    let s = t;
    let s0 = Seq::<char>::empty();
    let s1 = s0.push('2');
    let s2 = s1.push('5');
    let s3 = s2.push('6');
    assert(spelled(s0, 10) == 0);
    assert(s1.drop_last() =~= s0);
    assert(spelled(s1, 10) == 2);
    assert(s2.drop_last() =~= s1);
    assert(spelled(s2, 10) == 25);
    assert(s3.drop_last() =~= s2);
    assert(spelled(s3, 10) == 256);
    assert(s =~= s3);
}

proof fn lemma_n_0x00()
    ensures
        number("0x00"@) == 0,
{
    reveal_strlit("0x00");
    reveal_strlit("0x");
    let t = "0x00"@;
    assert(t.subrange(0, 2) =~= "0x"@);
    let s = t.subrange(2, 4);
    let s0 = Seq::<char>::empty();
    let s1 = s0.push('0');
    let s2 = s1.push('0');
    assert(spelled(s0, 16) == 0);
    assert(s1.drop_last() =~= s0);
    assert(spelled(s1, 16) == 0);
    assert(s2.drop_last() =~= s1);
    assert(spelled(s2, 16) == 0);
    assert(s =~= s2);
}

proof fn lemma_n_0x20()
    ensures
        number("0x20"@) == 32,
{
    reveal_strlit("0x20");
    reveal_strlit("0x");
    let t = "0x20"@;
    assert(t.subrange(0, 2) =~= "0x"@);
    let s = t.subrange(2, 4);
    let s0 = Seq::<char>::empty();
    let s1 = s0.push('2');
    let s2 = s1.push('0');
    assert(spelled(s0, 16) == 0);
    assert(s1.drop_last() =~= s0);
    assert(spelled(s1, 16) == 2);
    assert(s2.drop_last() =~= s1);
    assert(spelled(s2, 16) == 32);
    assert(s =~= s2);
}

proof fn lemma_n_0x40()
    ensures
        number("0x40"@) == 64,
{
    reveal_strlit("0x40");
    reveal_strlit("0x");
    let t = "0x40"@;
    assert(t.subrange(0, 2) =~= "0x"@);
    let s = t.subrange(2, 4);
    let s0 = Seq::<char>::empty();
    let s1 = s0.push('4');
    let s2 = s1.push('0');
    assert(spelled(s0, 16) == 0);
    assert(s1.drop_last() =~= s0);
    assert(spelled(s1, 16) == 4);
    assert(s2.drop_last() =~= s1);
    assert(spelled(s2, 16) == 64);
    assert(s =~= s2);
}

proof fn lemma_n_0x80()
    ensures
        number("0x80"@) == 128,
{
    reveal_strlit("0x80");
    reveal_strlit("0x");
    let t = "0x80"@;
    assert(t.subrange(0, 2) =~= "0x"@);
    let s = t.subrange(2, 4);
    let s0 = Seq::<char>::empty();
    let s1 = s0.push('8');
    let s2 = s1.push('0');
    assert(spelled(s0, 16) == 0);
    assert(s1.drop_last() =~= s0);
    assert(spelled(s1, 16) == 8);
    assert(s2.drop_last() =~= s1);
    assert(spelled(s2, 16) == 128);
    assert(s =~= s2);
}

proof fn lemma_n_0x24()
    ensures
        number("0x24"@) == 36,
{
    reveal_strlit("0x24");
    reveal_strlit("0x");
    let t = "0x24"@;
    assert(t.subrange(0, 2) =~= "0x"@);
    let s = t.subrange(2, 4);
    let s0 = Seq::<char>::empty();
    let s1 = s0.push('2');
    let s2 = s1.push('4');
    assert(spelled(s0, 16) == 0);
    assert(s1.drop_last() =~= s0);
    assert(spelled(s1, 16) == 2);
    assert(s2.drop_last() =~= s1);
    assert(spelled(s2, 16) == 36);
    assert(s =~= s2);
}

proof fn lemma_n_0x4e487b71()
    ensures
        number("0x4e487b71"@) == 1313373041,
{
    reveal_strlit("0x4e487b71");
    reveal_strlit("0x");
    let t = "0x4e487b71"@;
    assert(t.subrange(0, 2) =~= "0x"@);
    let s = t.subrange(2, 10);
    let s0 = Seq::<char>::empty();
    let s1 = s0.push('4');
    let s2 = s1.push('e');
    let s3 = s2.push('4');
    let s4 = s3.push('8');
    let s5 = s4.push('7');
    let s6 = s5.push('b');
    let s7 = s6.push('7');
    let s8 = s7.push('1');
    assert(spelled(s0, 16) == 0);
    assert(s1.drop_last() =~= s0);
    assert(spelled(s1, 16) == 4);
    assert(s2.drop_last() =~= s1);
    assert(spelled(s2, 16) == 78);
    assert(s3.drop_last() =~= s2);
    assert(spelled(s3, 16) == 1252);
    assert(s4.drop_last() =~= s3);
    assert(spelled(s4, 16) == 20040);
    assert(s5.drop_last() =~= s4);
    assert(spelled(s5, 16) == 320647);
    assert(s6.drop_last() =~= s5);
    assert(spelled(s6, 16) == 5130363);
    assert(s7.drop_last() =~= s6);
    assert(spelled(s7, 16) == 82085815);
    assert(s8.drop_last() =~= s7);
    assert(spelled(s8, 16) == 1313373041);
    assert(s =~= s8);
}

/// The values of the literals.
pub proof fn lemma_numbers()
    ensures
        number("0"@) == 0,
        number("1"@) == 1,
        number("2"@) == 2,
        number("3"@) == 3,
        number("4"@) == 4,
        number("31"@) == 31,
        number("32"@) == 32,
        number("96"@) == 96,
        number("128"@) == 128,
        number("224"@) == 224,
        number("256"@) == 256,
        number("0x00"@) == 0,
        number("0x20"@) == 32,
        number("0x40"@) == 64,
        number("0x80"@) == 128,
        number("0x24"@) == 36,
        number("0x4e487b71"@) == 1313373041,
{
    lemma_n_0();
    lemma_n_1();
    lemma_n_2();
    lemma_n_3();
    lemma_n_4();
    lemma_n_31();
    lemma_n_32();
    lemma_n_96();
    lemma_n_128();
    lemma_n_224();
    lemma_n_256();
    lemma_n_0x00();
    lemma_n_0x20();
    lemma_n_0x40();
    lemma_n_0x80();
    lemma_n_0x24();
    lemma_n_0x4e487b71();
}

} // verus!
