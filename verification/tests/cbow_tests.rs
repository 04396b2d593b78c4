use cbow::corpus::parse_corpus;
use cbow::matrix::flat_index;
use cbow::params::CBOWParams;
use cbow::sampling::filter_candidates;

fn default_params() -> CBOWParams {
    CBOWParams::new(4)
}

#[test]
fn test_parse_corpus() {
    let corpus = "uno and dos tres uno cinco".to_string();
    let clean = parse_corpus(corpus);
    assert_eq!(clean.vec, vec![0, 1, 2, 0, 3]);
    let words: Vec<String> = vec![
        "uno".to_string(),
        "dos".to_string(),
        "tres".to_string(),
        "cinco".to_string(),
    ];
    assert_eq!(clean.words, words);
}

#[test]
fn test_generate_pairs() {
    let cbow_params = default_params();
    let (context, target) = cbow_params
        .generate_pairs(&[0, 1, 2, 0, 3])
        .into_iter()
        .next()
        .unwrap();
    assert_eq!(context, &[0, 1, 0, 3]);
    assert_eq!(target, 2);
}

#[test]
fn test_generate_pairs_short_corpus() {
    let cbow_params = default_params();
    assert!(cbow_params.generate_pairs(&[]).is_empty());
    assert!(cbow_params.generate_pairs(&[0, 1, 2]).is_empty());
    assert!(cbow_params.generate_pairs(&[0, 1, 2, 0]).is_empty());
    assert_eq!(cbow_params.generate_pairs(&[0, 1, 2, 0, 3]).len(), 1);
}

#[test]
fn test_generate_pairs_count_and_windows() {
    let cbow_params = CBOWParams::new(4).set_window_size(1);
    let pairs = cbow_params.generate_pairs(&[1, 2, 3, 4]);
    assert_eq!(pairs.len(), 2);
    assert_eq!(pairs[0], (vec![1, 3], 2));
    assert_eq!(pairs[1], (vec![2, 4], 3));
}

#[test]
fn test_matrix_len() {
    let cbow_params = CBOWParams::new(4).set_embeddings_dimension(3);
    assert_eq!(cbow_params.matrix_len(), 12);
}

#[test]
fn test_flat_index() {
    assert_eq!(flat_index(0, 0, 4), 0);
    assert_eq!(flat_index(2, 3, 4), 11);
    assert_eq!(flat_index(3, 1, 5), 16);
}

#[test]
fn test_parse_corpus_strips_punctuation_and_case() {
    let clean = parse_corpus("Uno, DOS! uno.".to_string());
    assert_eq!(clean.words, vec!["uno".to_string(), "dos".to_string()]);
    assert_eq!(clean.vec, vec![0, 1, 0]);
}

#[test]
fn test_parse_corpus_empty_input() {
    let clean = parse_corpus("".to_string());
    assert!(clean.words.is_empty());
    assert!(clean.vec.is_empty());
}

#[test]
fn test_tokenizer_idempotent() {
    let text = "uno and dos tres uno cinco";
    let first = parse_corpus(text.to_string());
    let second = parse_corpus(text.to_string());
    assert_eq!(first.words, second.words);
    assert_eq!(first.vec, second.vec);
}

#[test]
fn test_filter_candidates_excludes_target() {
    let candidates = vec![3, 5, 3, 7, 3, 9];
    let kept = filter_candidates(&candidates, 3, false);
    assert_eq!(kept, vec![5, 7, 9]);
}

#[test]
fn test_filter_candidates_keep_matching() {
    let candidates = vec![3, 5, 3, 7, 3, 9];
    let kept = filter_candidates(&candidates, 3, true);
    assert_eq!(kept, vec![3, 3, 3]);
}

#[test]
fn test_negative_sampler_excludes_target() {
    let params = default_params().set_random_samples(10);
    let corpus = vec![7, 7, 2, 7, 7, 1, 7, 7, 7, 7, 7, 7];
    for _ in 0..50 {
        let negatives = params.get_random_indices(&7, &corpus);
        assert!(negatives.len() <= 10);
        assert!(negatives.iter().all(|x| *x != 7));
    }
}

#[test]
fn test_negative_sampler_all_target_corpus_yields_empty() {
    let params = default_params().set_random_samples(6);
    let corpus = vec![4, 4, 4, 4];
    for _ in 0..20 {
        assert!(params.get_random_indices(&4, &corpus).is_empty());
    }
}

#[test]
fn test_negative_sampler_draw_size() {
    let params = default_params().set_random_samples(5);
    let corpus: Vec<usize> = (1..=100).collect();
    for _ in 0..20 {
        let negatives = params.get_random_indices(&0, &corpus);
        assert_eq!(negatives.len(), 5);
        assert!(negatives.iter().all(|x| corpus.contains(x)));
    }
}

#[test]
fn test_builders_replace_fields() {
    let params = CBOWParams::new(9)
        .set_embeddings_dimension(25)
        .set_epochs(7)
        .set_random_samples(12)
        .set_window_size(3);
    assert_eq!(params.vocab_size, 9);
    assert_eq!(params.embeddings_dimension, 25);
    assert_eq!(params.epochs, 7);
    assert_eq!(params.random_samples, 12);
    assert_eq!(params.window_size, 7);
    assert_eq!(params.target, 3);
}
