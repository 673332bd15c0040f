//! The verdict of a spelling check on one word, and the line that reports it.
use vstd::prelude::*;
use vstd::string::StringExecFns;

verus! {

/// What a lexicon lookup says of a word.
#[derive(Clone, Debug, PartialEq, Eq)]
pub enum Verdict {
    /// The lexicon holds the word.
    Known,
    /// The word is unknown and nothing is close to it.
    Misspelled,
    /// The word is unknown; the best correction is given.
    MisspelledWithSuggestion(String),
}

pub open spec fn verdict_of(known: bool, corrections: Seq<String>) -> Verdict {
    if known {
        Verdict::Known
    } else if corrections.len() == 0 {
        Verdict::Misspelled
    } else {
        Verdict::MisspelledWithSuggestion(corrections[0])
    }
}

/// Judges a word from whether the lexicon holds it and from the
/// corrections the lexicon offers, best first.
pub fn judge(known: bool, corrections: &Vec<String>) -> (verdict: Verdict)
    ensures
        verdict == verdict_of(known, corrections@),
{
    if known {
        Verdict::Known
    } else if corrections.len() == 0 {
        Verdict::Misspelled
    } else {
        Verdict::MisspelledWithSuggestion(corrections[0].clone())
    }
}

/// The line that reports `verdict` on `word`; a known word is not reported.
pub open spec fn report_of(word: Seq<char>, verdict: Verdict) -> Option<Seq<char>> {
    match verdict {
        Verdict::Known => None,
        Verdict::Misspelled => Some(word + " is misspelled"@),
        Verdict::MisspelledWithSuggestion(suggestion) => Some(
            word + " is misspelled, did you mean "@ + suggestion@ + "?"@,
        ),
    }
}

pub fn report(word: &str, verdict: &Verdict) -> (line: Option<String>)
    ensures
        match report_of(word@, *verdict) {
            Some(text) => line matches Some(l) && l@ == text,
            None => line is None,
        },
{
    match verdict {
        Verdict::Known => None,
        Verdict::Misspelled => {
            let mut line = String::from_str(word);
            line.append(" is misspelled");
            Some(line)
        },
        Verdict::MisspelledWithSuggestion(suggestion) => {
            let mut line = String::from_str(word);
            line.append(" is misspelled, did you mean ");
            line.append(suggestion.as_str());
            line.append("?");
            Some(line)
        },
    }
}

/// The lines of a dictionary, each with its line feed; only the last may
/// lack one. A byte joins the line before it unless that line has ended.
pub open spec fn split_lines(contents: Seq<u8>) -> Seq<Seq<u8>>
    decreases contents.len(),
{
    if contents.len() == 0 {
        Seq::empty()
    } else {
        let before = split_lines(contents.drop_last());
        let byte = contents.last();
        if before.len() > 0 && before.last().last() != 10 {
            before.update(before.len() - 1, before.last().push(byte))
        } else {
            before.push(seq![byte])
        }
    }
}

/// The finished lines, and after them the line that is still open, if it
/// holds anything.
pub open spec fn with_open_line(finished: Seq<Seq<u8>>, open: Seq<u8>) -> Seq<Seq<u8>> {
    if open.len() == 0 {
        finished
    } else {
        finished.push(open)
    }
}

/// The bytes of each line.
pub open spec fn line_bytes(lines: Seq<Vec<u8>>) -> Seq<Seq<u8>> {
    lines.map_values(|line: Vec<u8>| line@)
}

/// Splits the contents of a dictionary into the words to insert, in order:
/// one per line, as a line-by-line reader hands them out, line feed
/// included. The words depend on the contents alone.
pub fn dictionary_words(contents: &Vec<u8>) -> (words: Vec<Vec<u8>>)
    ensures
        line_bytes(words@) == split_lines(contents@),
{
    let mut words: Vec<Vec<u8>> = Vec::new();
    let mut open: Vec<u8> = Vec::new();
    let mut i: usize = 0;
    assert(line_bytes(words@) =~= Seq::<Seq<u8>>::empty());
    assert(contents@.take(0) =~= Seq::<u8>::empty());
    while i < contents.len()
        invariant
            i <= contents.len(),
            split_lines(contents@.take(i as int)) == with_open_line(line_bytes(words@), open@),
            forall|k: int| 0 <= k < open@.len() ==> open@[k] != 10,
            words@.len() > 0 ==> words@.last()@.len() > 0 && words@.last()@.last() == 10,
        decreases contents.len() - i,
    {
        let byte = contents[i];
        let ghost finished = line_bytes(words@);
        let ghost prior = open@;
        let ghost before = with_open_line(finished, prior);
        open.push(byte);
        proof {
            let whole = contents@.take(i + 1);
            assert(whole.drop_last() =~= contents@.take(i as int));
            assert(whole.last() == byte);
            assert(split_lines(whole.drop_last()) == before);
            if prior.len() > 0 {
                assert(before.last() == prior);
                assert(prior.last() != 10);
                assert(before.update(before.len() - 1, prior.push(byte)) =~= finished.push(
                    open@,
                ));
            } else {
                assert(open@ =~= seq![byte]);
                if words@.len() > 0 {
                    assert(finished.last() == words@.last()@);
                }
            }
            assert(split_lines(whole) == finished.push(open@));
        }
        if byte == 10 {
            words.push(open);
            open = Vec::new();
            assert(line_bytes(words@) =~= finished.push(words@.last()@));
        }
        i += 1;
    }
    assert(contents@.take(contents.len() as int) =~= contents@);
    if open.len() > 0 {
        let ghost finished = line_bytes(words@);
        words.push(open);
        assert(line_bytes(words@) =~= finished.push(words@.last()@));
    }
    words
}

} // verus!
