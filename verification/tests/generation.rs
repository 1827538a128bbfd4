use genpwd::errors::PassError;
use genpwd::generate::PassGen;

fn words(list: &[&str]) -> Vec<String> {
    list.iter().map(|w| w.to_string()).collect()
}

#[test]
fn zero_words_yields_prefix_suffix() {
    let mut g = PassGen::new(words(&["alpha", "bravo"])).unwrap();
    let pass = g.generate_pass(0, &Some("131".to_string()), &Some(".".to_string()));
    assert_eq!(pass, "131.");
}

#[test]
fn zero_words_no_decorations_is_empty() {
    let mut g = PassGen::new(words(&["alpha"])).unwrap();
    let pass = g.generate_pass(0, &None, &None);
    assert_eq!(pass, "");
}

#[test]
fn empty_corpus_rejected() {
    let r = PassGen::new(Vec::new());
    assert!(matches!(r, Err(PassError::CorpusEmpty)));
}

#[test]
fn single_word_corpus_is_deterministic() {
    let mut g = PassGen::new(words(&["zag"])).unwrap();
    let pass = g.generate_pass(3, &None, &None);
    assert_eq!(pass, "ZagZagZag");
}

#[test]
fn fragments_decompose_into_corpus_words() {
    // Equal-length words so the fragment boundaries are known.
    let mut g = PassGen::new(words(&["alpha", "bravo", "delta"])).unwrap();
    for _ in 0..50 {
        let pass = g.generate_pass(4, &Some("131".to_string()), &Some(".".to_string()));
        assert!(pass.starts_with("131"));
        assert!(pass.ends_with("."));
        let middle = &pass[3..pass.len() - 1];
        assert_eq!(middle.len(), 20);
        for k in 0..4 {
            let frag = &middle[5 * k..5 * (k + 1)];
            assert!(
                frag == "Alpha" || frag == "Bravo" || frag == "Delta",
                "unexpected fragment {}",
                frag
            );
        }
    }
}

#[test]
fn first_char_uppercased_rest_untouched() {
    let mut g = PassGen::new(words(&["hello"])).unwrap();
    assert_eq!(g.generate_pass(1, &None, &None), "Hello");

    let mut g = PassGen::new(words(&["mcIntosh"])).unwrap();
    assert_eq!(g.generate_pass(1, &None, &None), "McIntosh");

    let mut g = PassGen::new(words(&["9lives"])).unwrap();
    assert_eq!(g.generate_pass(1, &None, &None), "9lives");

    let mut g = PassGen::new(words(&["\u{e9}tude"])).unwrap();
    assert_eq!(g.generate_pass(1, &None, &None), "\u{e9}tude");

    let mut g = PassGen::new(words(&["ALREADY"])).unwrap();
    assert_eq!(g.generate_pass(1, &None, &None), "ALREADY");
}

#[test]
fn empty_word_in_corpus_is_kept_empty() {
    let mut g = PassGen::new(words(&[""])).unwrap();
    assert_eq!(g.generate_pass(2, &Some("a".to_string()), &None), "a");
}

#[test]
fn sampling_is_uniform_and_every_index_reachable() {
    let corpus = ["aa", "bb", "cc", "dd"];
    let mut g = PassGen::new(words(&corpus)).unwrap();
    let mut counts = [0usize; 4];
    let draws = 8000;
    for _ in 0..draws {
        let pass = g.generate_pass(1, &None, &None);
        let idx = match pass.as_str() {
            "Aa" => 0,
            "Bb" => 1,
            "Cc" => 2,
            "Dd" => 3,
            other => panic!("unexpected passphrase {}", other),
        };
        counts[idx] += 1;
    }
    // Expected 2000 per index; 400 is over ten standard deviations.
    for (i, &c) in counts.iter().enumerate() {
        assert!(c > 0, "index {} never drawn", i);
        assert!(
            1600 <= c && c <= 2400,
            "index {} drawn {} times out of {}",
            i,
            c,
            draws
        );
    }
}
