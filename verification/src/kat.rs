use std::num::ParseIntError;
use vstd::prelude::*;

use crate::feistel::{decipher_block, encipher_block, feistel, lemma_feistel_inverse};
use crate::key_schedule::{generate_key_schedule, key_schedule};
use crate::text::{
    assignment_line, chars_of, contains, ends_with, has_pattern, has_prefix, has_suffix, is_word,
    lemma_assignment_words, starts_with, texts, tokenize_line, unicode_white_space, words,
};

verus! {

/// One known-answer test: a key, an input block and the block expected from it, and
/// whether the input is to be enciphered (or deciphered).
#[derive(Clone, Copy, Debug, PartialEq, Eq)]
pub struct TestConfig {
    pub id: u64,
    pub key: u64,
    pub plaintext: u64,
    pub ciphertext: u64,
    pub encrypting: bool,
}

/// Why a file of known-answer tests could not be read.
#[derive(Clone, Copy, Debug, PartialEq, Eq)]
pub enum KatError {
    /// A line that names a value holds fewer than three words.
    MissingValue,
    /// One of the four values of a test is not a hexadecimal number that fits in 64 bits.
    BadNumber,
}

/// Why the command line of the test runner is refused.
#[derive(Clone, Copy, Debug, PartialEq, Eq)]
pub enum ArgsError {
    /// No directory was named.
    NoPath,
    /// More than one directory was named.
    TooManyPaths,
}

#[verifier::external_type_specification]
#[verifier::external_body]
pub struct ExParseIntError(ParseIntError);

/// Whether `c` is a hexadecimal digit.
pub open spec fn is_hex_digit(c: char) -> bool {
    ('0' <= c && c <= '9') || ('a' <= c && c <= 'f') || ('A' <= c && c <= 'F')
}

/// The value of the hexadecimal digit `c`.
pub open spec fn hex_digit_value(c: char) -> nat {
    if '0' <= c && c <= '9' {
        (c as int - '0' as int) as nat
    } else if 'a' <= c && c <= 'f' {
        (c as int - 'a' as int + 10) as nat
    } else {
        (c as int - 'A' as int + 10) as nat
    }
}

/// The number that the hexadecimal digits `s` write, most significant first.
pub open spec fn hex_value(s: Seq<char>) -> nat
    decreases s.len(),
{
    if s.len() == 0 {
        0
    } else {
        16 * hex_value(s.drop_last()) + hex_digit_value(s.last())
    }
}

/// What `u64::from_str_radix(s, 16)` reads from `s`: an optional `+` followed by one or
/// more hexadecimal digits whose value fits in 64 bits; anything else is refused.
pub open spec fn unsigned_hex(s: Seq<char>) -> Option<u64> {
    let digits = if s.len() > 0 && s[0] == '+' {
        s.drop_first()
    } else {
        s
    };
    if digits.len() > 0 && (forall|i: int| 0 <= i < digits.len() ==> is_hex_digit(#[trigger] digits[i]))
        && hex_value(digits) <= u64::MAX {
        Some(hex_value(digits) as u64)
    } else {
        None
    }
}

/// `u64::from_str_radix(s, 16)`. Its documentation gives the grammar stated by
/// `unsigned_hex`: an optional `+` sign followed by digits only, an error for an empty
/// string, a misplaced sign, any other character, or a value that overflows.
#[verifier::external_body]
fn from_hex_str(s: &str) -> (r: Result<u64, ParseIntError>)
    ensures
        r is Ok <==> unsigned_hex(s@) is Some,
        r matches Ok(v) ==> unsigned_hex(s@) == Some(v),
{
    u64::from_str_radix(s, 16)
}

/// Reads a hexadecimal number as the test files write it.
pub fn parse_hex_u64(s: &str) -> (r: Option<u64>)
    ensures
        r == unsigned_hex(s@),
{
    match from_hex_str(s) {
        Ok(v) => Some(v),
        Err(_) => None,
    }
}

/// What the reader has gathered so far: the values of the test in progress, whether the
/// current section enciphers, and the tests completed.
pub type KatState = (Seq<Seq<char>>, bool, Seq<TestConfig>);

/// Whether `line` names one of the four values of a test.
pub open spec fn is_value_line(line: Seq<char>) -> bool {
    starts_with(line, "COUNT"@) || starts_with(line, "KEYs"@) || starts_with(line, "PLAINTEXT"@)
        || starts_with(line, "CIPHERTEXT"@)
}

/// Once four values are gathered they become a test: count, key, input and expected
/// output, in that order, all hexadecimal.
pub open spec fn complete_test(fields: Seq<Seq<char>>, encrypting: bool, tests: Seq<TestConfig>) -> Result<
    KatState,
    KatError,
> {
    if fields.len() == 4 {
        match (
            unsigned_hex(fields[0]),
            unsigned_hex(fields[1]),
            unsigned_hex(fields[2]),
            unsigned_hex(fields[3]),
        ) {
            (Some(id), Some(key), Some(plaintext), Some(ciphertext)) => Ok(
                (
                    seq![],
                    encrypting,
                    tests.push(TestConfig { id, key, plaintext, ciphertext, encrypting }),
                ),
            ),
            _ => Err(KatError::BadNumber),
        }
    } else {
        Ok((fields, encrypting, tests))
    }
}

/// The reader's state after one more line: a value line gives its third word, a line
/// that opens a section (`[`) says whether the section enciphers (it deciphers where the
/// line mentions `DECRYPT`), and every other line is skipped.
pub open spec fn read_line(state: KatState, line: Seq<char>) -> Result<KatState, KatError> {
    let (fields, encrypting, tests) = state;
    if line.len() == 0 {
        Ok(state)
    } else if is_value_line(line) {
        if words(line).len() < 3 {
            Err(KatError::MissingValue)
        } else {
            complete_test(fields.push(words(line)[2]), encrypting, tests)
        }
    } else if starts_with(line, "["@) {
        complete_test(fields, !contains(line, "DECRYPT"@), tests)
    } else {
        Ok(state)
    }
}

/// The reader's state after the given lines, or the first error.
pub open spec fn read_lines(lines: Seq<Seq<char>>) -> Result<KatState, KatError>
    decreases lines.len(),
{
    if lines.len() == 0 {
        Ok((seq![], false, seq![]))
    } else {
        match read_lines(lines.drop_last()) {
            Ok(state) => read_line(state, lines.last()),
            Err(e) => Err(e),
        }
    }
}

/// The tests that a file of the given lines holds, or the first error.
pub open spec fn tests_of(lines: Seq<Seq<char>>) -> Result<Seq<TestConfig>, KatError> {
    match read_lines(lines) {
        Ok(state) => Ok(state.2),
        Err(e) => Err(e),
    }
}

/// Reads the tests of one file, given as its lines.
pub fn process_lines(lines: &Vec<String>) -> (r: Result<Vec<TestConfig>, KatError>)
    ensures
        match r {
            Ok(tests) => tests_of(texts(lines@)) == Ok::<Seq<TestConfig>, KatError>(tests@),
            Err(e) => tests_of(texts(lines@)) == Err::<Seq<TestConfig>, KatError>(e),
        },
{
    // the tests gathered so far
    let mut tests: Vec<TestConfig> = Vec::new();
    // the values of the test in progress
    let mut temp_hold: Vec<String> = Vec::new();
    // whether the current section enciphers
    let mut encrypting: bool = false;
    assert(texts(lines@).take(0) =~= Seq::<Seq<char>>::empty());
    assert(texts(temp_hold@) =~= Seq::<Seq<char>>::empty());
    for i in 0..lines.len()
        invariant
            read_lines(texts(lines@).take(i as int)) == Ok::<KatState, KatError>(
                (texts(temp_hold@), encrypting, tests@),
            ),
    {
        assert(texts(lines@).take(i + 1).drop_last() =~= texts(lines@).take(i as int));
        assert(texts(lines@).take(i + 1).last() == lines@[i as int]@);
        let line: &str = lines[i].as_str();
        match read_line_into(line, &mut temp_hold, &mut encrypting, &mut tests) {
            Ok(()) => {},
            Err(e) => {
                assert(read_lines(texts(lines@).take(i + 1)) == Err::<KatState, KatError>(e));
                proof {
                    read_lines_error_stays(texts(lines@), (i + 1) as int);
                }
                return Err(e);
            },
        }
    }
    assert(texts(lines@).take(lines.len() as int) =~= texts(lines@));
    Ok(tests)
}

/// Once the lines read so far give an error, so do all the lines.
proof fn read_lines_error_stays(lines: Seq<Seq<char>>, n: int)
    requires
        0 <= n <= lines.len(),
        read_lines(lines.take(n)) is Err,
    ensures
        read_lines(lines) == read_lines(lines.take(n)),
    decreases lines.len() - n,
{
    if n < lines.len() {
        assert(lines.take(n + 1).drop_last() =~= lines.take(n));
        read_lines_error_stays(lines, n + 1);
    } else {
        assert(lines.take(n) =~= lines);
    }
}

/// Reads one line into the state of the reader.
fn read_line_into(
    line: &str,
    temp_hold: &mut Vec<String>,
    encrypting: &mut bool,
    tests: &mut Vec<TestConfig>,
) -> (r: Result<(), KatError>)
    ensures
        match read_line((texts(old(temp_hold)@), *old(encrypting), old(tests)@), line@) {
            Ok(state) => r is Ok && state == (texts(final(temp_hold)@), *final(encrypting), final(tests)@),
            Err(e) => r == Err::<(), KatError>(e),
        },
{
    let ghost start: KatState = (texts(temp_hold@), *encrypting, tests@);
    let chars = chars_of(line);
    // skip empty lines
    if chars.len() == 0 {
        return Ok(());
    }
    let value_line = has_prefix(&chars, &chars_of("COUNT")) || has_prefix(&chars, &chars_of("KEYs"))
        || has_prefix(&chars, &chars_of("PLAINTEXT")) || has_prefix(
        &chars,
        &chars_of("CIPHERTEXT"),
    );
    if value_line {
        // when a known prefix, keep its value
        let tokens: Vec<String> = tokenize_line(line);
        if tokens.len() < 3 {
            return Err(KatError::MissingValue);
        }
        let value = tokens[2].clone();
        assert(texts(tokens@)[2] == tokens@[2]@);
        temp_hold.push(value);
        assert(texts(temp_hold@) =~= start.0.push(words(line@)[2]));
    } else if has_prefix(&chars, &chars_of("[")) {
        // a section says whether its tests encipher or decipher
        *encrypting = !has_pattern(&chars, &chars_of("DECRYPT"));
    } else {
        // if not a pre-established beginning, just skip
        return Ok(());
    }
    // when an entire case has been found, form the test
    if temp_hold.len() == 4 {
        let id = parse_hex_u64(temp_hold[0].as_str());
        let key = parse_hex_u64(temp_hold[1].as_str());
        let plaintext = parse_hex_u64(temp_hold[2].as_str());
        let ciphertext = parse_hex_u64(temp_hold[3].as_str());
        assert(texts(temp_hold@)[0] == temp_hold@[0]@ && texts(temp_hold@)[1] == temp_hold@[1]@
            && texts(temp_hold@)[2] == temp_hold@[2]@ && texts(temp_hold@)[3] == temp_hold@[3]@);
        match (id, key, plaintext, ciphertext) {
            (Some(id), Some(key), Some(plaintext), Some(ciphertext)) => {
                let test_config = TestConfig {
                    id,
                    key,
                    plaintext,
                    ciphertext,
                    encrypting: *encrypting,
                };
                // clear the temp hold
                *temp_hold = Vec::new();
                assert(texts(temp_hold@) =~= Seq::<Seq<char>>::empty());
                // store the test
                tests.push(test_config);
            },
            _ => {
                return Err(KatError::BadNumber);
            },
        }
    }
    Ok(())
}

/// The block that a test computes: the input enciphered (or deciphered) under the test's key.
pub open spec fn test_result(test: TestConfig) -> u64 {
    if test.encrypting {
        feistel(test.plaintext, key_schedule(test.key))
    } else {
        feistel(test.plaintext, key_schedule(test.key).reverse())
    }
}

/// The outcome of one known-answer test.
#[derive(Clone, Copy, Debug, PartialEq, Eq)]
pub struct TestOutcome {
    pub expected: u64,
    pub actual: u64,
    pub passed: bool,
}

/// Runs one known-answer test: the key schedule of its key, then enciphering or
/// deciphering its input, compared with its expected output.
pub fn run_test(test: &TestConfig) -> (outcome: TestOutcome)
    ensures
        outcome.expected == test.ciphertext,
        outcome.actual == test_result(*test),
        test.encrypting ==> outcome.actual == feistel(test.plaintext, key_schedule(test.key)),
        !test.encrypting ==> outcome.actual == feistel(
            test.plaintext,
            key_schedule(test.key).reverse(),
        ),
        outcome.passed == (outcome.actual == outcome.expected),
{
    let key_schedule: [u64; 16] = generate_key_schedule(&test.key);
    let expected: u64 = test.ciphertext;
    let actual: u64;
    if test.encrypting {
        actual = encipher_block(&test.plaintext, &key_schedule);
    } else {
        actual = decipher_block(&test.plaintext, &key_schedule);
    }
    TestOutcome { expected, actual, passed: actual == expected }
}

/// Checks the number of command-line arguments of the test runner, the program's name
/// included: it takes exactly one directory.
pub fn validate_args(arg_count: usize) -> (r: Result<(), ArgsError>)
    requires
        arg_count >= 1,
    ensures
        arg_count == 1 ==> r == Err::<(), ArgsError>(ArgsError::NoPath),
        arg_count > 2 ==> r == Err::<(), ArgsError>(ArgsError::TooManyPaths),
        arg_count == 2 ==> r is Ok,
{
    if arg_count == 1 {
        return Err(ArgsError::NoPath);
    }
    if arg_count > 2 {
        return Err(ArgsError::TooManyPaths);
    }
    Ok(())
}

/// Whether a file name is one an editor leaves behind: an autosave file (`#name#`) or a
/// backup (`name~`). Such files hold no tests.
pub fn is_editor_leftover(name: &str) -> (r: bool)
    ensures
        r == ((starts_with(name@, "#"@) && ends_with(name@, "#"@)) || ends_with(name@, "~"@)),
{
    let chars = chars_of(name);
    let hash = chars_of("#");
    let autosave: bool = has_prefix(&chars, &hash) && has_suffix(&chars, &hash);
    let backup: bool = has_suffix(&chars, &chars_of("~"));
    autosave || backup
}

/// A line that the reader skips: empty, or beginning with none of `COUNT`, `KEYs`,
/// `PLAINTEXT`, `CIPHERTEXT` and `[`.
pub open spec fn is_skipped_line(line: Seq<char>) -> bool {
    line.len() == 0 || (!is_value_line(line) && !starts_with(line, "["@))
}

/// A skipped line leaves the reader's state as it was.
pub proof fn lemma_skipped_line_keeps_state(state: KatState, line: Seq<char>)
    requires
        is_skipped_line(line),
    ensures
        read_line(state, line) == Ok::<KatState, KatError>(state),
{
}

/// Inserting a skipped line anywhere in a file changes nothing: the same tests come out,
/// or the same error. By repetition, so does inserting any number of such lines.
pub proof fn lemma_skipped_line_changes_nothing(lines: Seq<Seq<char>>, k: int, line: Seq<char>)
    requires
        0 <= k <= lines.len(),
        is_skipped_line(line),
    ensures
        read_lines(lines.insert(k, line)) == read_lines(lines),
        tests_of(lines.insert(k, line)) == tests_of(lines),
{
    let inserted = lines.insert(k, line);
    lemma_inserted_prefix(lines, k, line, inserted.len() as int);
    assert(inserted.take(inserted.len() as int) =~= inserted);
    assert(lines.take(lines.len() as int) =~= lines);
}

/// After the inserted line, each prefix of the longer file reads as the prefix of the
/// shorter one that lacks it.
proof fn lemma_inserted_prefix(lines: Seq<Seq<char>>, k: int, line: Seq<char>, n: int)
    requires
        0 <= k <= lines.len(),
        is_skipped_line(line),
        k < n <= lines.len() + 1,
    ensures
        read_lines(lines.insert(k, line).take(n)) == read_lines(lines.take(n - 1)),
    decreases n,
{
    let inserted = lines.insert(k, line);
    if n == k + 1 {
        assert(inserted.take(n).drop_last() =~= lines.take(k));
        assert(inserted.take(n).last() == line);
        lemma_skipped_line_keeps_state(read_lines(lines.take(k))->Ok_0, line);
    } else {
        lemma_inserted_prefix(lines, k, line, n - 1);
        assert(inserted.take(n).drop_last() =~= inserted.take(n - 1));
        assert(inserted.take(n).last() == lines[n - 2]);
        assert(lines.take(n - 1).drop_last() =~= lines.take(n - 2));
        assert(lines.take(n - 1).last() == lines[n - 2]);
    }
}

/// The outcome of a test, as `run_test` gives it.
pub open spec fn outcome_of(test: TestConfig) -> TestOutcome {
    TestOutcome {
        expected: test.ciphertext,
        actual: test_result(test),
        passed: test_result(test) == test.ciphertext,
    }
}

/// A run over a list of tests: the outcomes of the tests run, and whether the run succeeded.
#[derive(Debug)]
pub struct TestRun {
    pub outcomes: Vec<TestOutcome>,
    pub success: bool,
}

/// Runs the tests in order, stopping after the first that fails. The run succeeds when
/// there was at least one test and none failed.
pub fn run_tests(tests: &Vec<TestConfig>) -> (run: TestRun)
    ensures
        run.outcomes.len() <= tests.len(),
        forall|i: int| 0 <= i < run.outcomes.len() ==> #[trigger] run.outcomes@[i] == outcome_of(tests@[i]),
        forall|i: int| 0 <= i < run.outcomes.len() - 1 ==> #[trigger] run.outcomes@[i].passed,
        run.outcomes.len() == tests.len() || (run.outcomes.len() > 0
            && !run.outcomes@[run.outcomes.len() - 1].passed),
        run.success == (run.outcomes.len() > 0 && run.outcomes@[run.outcomes.len() - 1].passed),
{
    let mut outcomes: Vec<TestOutcome> = Vec::new();
    let mut success: bool = false;
    let mut failed: bool = false;
    let mut i: usize = 0;
    while i < tests.len() && !failed
        invariant
            i <= tests.len(),
            outcomes.len() == i,
            forall|j: int| 0 <= j < i ==> #[trigger] outcomes@[j] == outcome_of(tests@[j]),
            forall|j: int| 0 <= j < i - 1 ==> #[trigger] outcomes@[j].passed,
            failed == (i > 0 && !outcomes@[i - 1].passed),
            success == (i > 0 && outcomes@[i - 1].passed),
        decreases tests.len() - i,
    {
        let outcome = run_test(&tests[i]);
        outcomes.push(outcome);
        success = outcome.passed;
        failed = !success;
        i = i + 1;
    }
    TestRun { outcomes, success }
}

/// A known-answer test checks DES: a test that enciphers `plaintext` under `key` and
/// expects what DES enciphers it to passes, and so does the test that deciphers that
/// result and expects `plaintext` back.
pub proof fn lemma_known_answers_pass(id: u64, key: u64, plaintext: u64)
    ensures
        outcome_of(
            TestConfig {
                id,
                key,
                plaintext,
                ciphertext: feistel(plaintext, key_schedule(key)),
                encrypting: true,
            },
        ).passed,
        outcome_of(
            TestConfig {
                id,
                key,
                plaintext: feistel(plaintext, key_schedule(key)),
                ciphertext: plaintext,
                encrypting: false,
            },
        ).passed,
{
    lemma_feistel_inverse(plaintext, key_schedule(key));
}

/// The names of the four values, and the section words, hold no white space.
proof fn lemma_names()
    ensures
        is_word("COUNT"@),
        is_word("KEYs"@),
        is_word("PLAINTEXT"@),
        is_word("CIPHERTEXT"@),
        "[ENCRYPT]"@.len() > 0,
        "[DECRYPT]"@.len() > 0,
        !is_value_line("[ENCRYPT]"@),
        !is_value_line("[DECRYPT]"@),
        starts_with("[ENCRYPT]"@, "["@),
        starts_with("[DECRYPT]"@, "["@),
        !contains("[ENCRYPT]"@, "DECRYPT"@),
        contains("[DECRYPT]"@, "DECRYPT"@),
{
    reveal_strlit("COUNT");
    reveal_strlit("KEYs");
    reveal_strlit("PLAINTEXT");
    reveal_strlit("CIPHERTEXT");
    reveal_strlit("[ENCRYPT]");
    reveal_strlit("[DECRYPT]");
    reveal_strlit("[");
    reveal_strlit("DECRYPT");
    assert forall|i: int| 0 <= i < 10 implies (i < "COUNT"@.len() ==> !unicode_white_space(
        #[trigger] "COUNT"@[i],
    )) && (i < "KEYs"@.len() ==> !unicode_white_space("KEYs"@[i])) && (i < "PLAINTEXT"@.len()
        ==> !unicode_white_space("PLAINTEXT"@[i])) && !unicode_white_space("CIPHERTEXT"@[i]) by {
        assert(i == 0 || i == 1 || i == 2 || i == 3 || i == 4 || i == 5 || i == 6 || i == 7 || i
            == 8 || i == 9);
    }
    assert("[ENCRYPT]"@.take(1) =~= "["@);
    assert("[DECRYPT]"@.take(1) =~= "["@);
    assert("[ENCRYPT]"@.take(5)[0] != "COUNT"@[0]);
    assert("[ENCRYPT]"@.take(4)[0] != "KEYs"@[0]);
    assert("[ENCRYPT]"@.take(9)[0] != "PLAINTEXT"@[0]);
    assert("[DECRYPT]"@.take(5)[0] != "COUNT"@[0]);
    assert("[DECRYPT]"@.take(4)[0] != "KEYs"@[0]);
    assert("[DECRYPT]"@.take(9)[0] != "PLAINTEXT"@[0]);
    assert("[DECRYPT]"@.subrange(1, 1 + "DECRYPT"@.len() as int) =~= "DECRYPT"@);
    assert forall|i: int| 0 <= i && i + 7 <= 9 implies #[trigger] "[ENCRYPT]"@.subrange(i, i + 7)
        != "DECRYPT"@ by {
        assert("[ENCRYPT]"@.subrange(i, i + 7)[0] != "DECRYPT"@[0]);
    }
}

/// A test written as a section line (`[ENCRYPT]` or `[DECRYPT]`) and four lines
/// `COUNT = n`, `KEYs = k`, `PLAINTEXT = p` and `CIPHERTEXT = c`, with n, k, p and c
/// hexadecimal numbers, is read as the one test with count n, key k, input p and expected
/// output c, enciphering in an `[ENCRYPT]` section and deciphering in a `[DECRYPT]` one.
pub proof fn lemma_five_lines_make_a_test(
    encrypting: bool,
    n: Seq<char>,
    k: Seq<char>,
    p: Seq<char>,
    c: Seq<char>,
)
    requires
        is_word(n),
        is_word(k),
        is_word(p),
        is_word(c),
        unsigned_hex(n) is Some,
        unsigned_hex(k) is Some,
        unsigned_hex(p) is Some,
        unsigned_hex(c) is Some,
    ensures
        tests_of(
            seq![
                if encrypting { "[ENCRYPT]"@ } else { "[DECRYPT]"@ },
                assignment_line("COUNT"@, n),
                assignment_line("KEYs"@, k),
                assignment_line("PLAINTEXT"@, p),
                assignment_line("CIPHERTEXT"@, c),
            ],
        ) == Ok::<Seq<TestConfig>, KatError>(
            seq![
                TestConfig {
                    id: unsigned_hex(n)->Some_0,
                    key: unsigned_hex(k)->Some_0,
                    plaintext: unsigned_hex(p)->Some_0,
                    ciphertext: unsigned_hex(c)->Some_0,
                    encrypting,
                },
            ],
        ),
{
    lemma_names();
    let section = if encrypting {
        "[ENCRYPT]"@
    } else {
        "[DECRYPT]"@
    };
    let l1 = assignment_line("COUNT"@, n);
    let l2 = assignment_line("KEYs"@, k);
    let l3 = assignment_line("PLAINTEXT"@, p);
    let l4 = assignment_line("CIPHERTEXT"@, c);
    let lines = seq![section, l1, l2, l3, l4];
    let s1: KatState = (seq![], encrypting, seq![]);
    assert(read_lines(lines.take(1)) == Ok::<KatState, KatError>(s1)) by {
        assert(lines.take(1).drop_last() =~= Seq::<Seq<char>>::empty());
        assert(read_lines(Seq::<Seq<char>>::empty()) == Ok::<KatState, KatError>(
            (seq![], false, seq![]),
        ));
        assert(lines.take(1).last() == section);
        assert(!contains(section, "DECRYPT"@) == encrypting);
    }
    lemma_value_line("COUNT"@, n, lines, 1);
    lemma_value_line("KEYs"@, k, lines, 2);
    lemma_value_line("PLAINTEXT"@, p, lines, 3);
    lemma_value_line("CIPHERTEXT"@, c, lines, 4);
    assert(seq![n, k, p, c] =~= seq![].push(n).push(k).push(p).push(c));
    assert(lines.take(5) =~= lines);
}

/// Reading the value line `name = v` after the first `m` lines pushes `v` onto the values
/// gathered so far.
proof fn lemma_value_line(name: Seq<char>, v: Seq<char>, lines: Seq<Seq<char>>, m: int)
    requires
        is_word(name),
        is_word(v),
        0 <= m < lines.len(),
        lines[m] == assignment_line(name, v),
        name == "COUNT"@ || name == "KEYs"@ || name == "PLAINTEXT"@ || name == "CIPHERTEXT"@,
        read_lines(lines.take(m)) is Ok,
    ensures
        read_lines(lines.take(m + 1)) == complete_test(
            read_lines(lines.take(m))->Ok_0.0.push(v),
            read_lines(lines.take(m))->Ok_0.1,
            read_lines(lines.take(m))->Ok_0.2,
        ),
{
    let line = assignment_line(name, v);
    lemma_assignment_words(name, v);
    assert(line.take(name.len() as int) =~= name);
    assert(is_value_line(line));
    assert(lines.take(m + 1).drop_last() =~= lines.take(m));
    assert(lines.take(m + 1).last() == line);
}

} // verus!
