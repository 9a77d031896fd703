use vectordb::DistanceMetric;

#[test]
fn parses_the_three_names() {
    assert_eq!(DistanceMetric::from_str("euclidean"), Some(DistanceMetric::Euclidean));
    assert_eq!(DistanceMetric::from_str("cosine"), Some(DistanceMetric::Cosine));
    assert_eq!(DistanceMetric::from_str("dot"), Some(DistanceMetric::Dot));
}

#[test]
fn parsing_ignores_case() {
    assert_eq!(DistanceMetric::from_str("Cosine"), Some(DistanceMetric::Cosine));
    assert_eq!(DistanceMetric::from_str("EUCLIDEAN"), Some(DistanceMetric::Euclidean));
    assert_eq!(DistanceMetric::from_str("dOt"), Some(DistanceMetric::Dot));
}

#[test]
fn rejects_other_texts() {
    assert_eq!(DistanceMetric::from_str(""), None);
    assert_eq!(DistanceMetric::from_str("cos"), None);
    assert_eq!(DistanceMetric::from_str("cosine "), None);
    assert_eq!(DistanceMetric::from_str("manhattan"), None);
    assert_eq!(DistanceMetric::from_str("d\u{f6}t"), None);
}

#[test]
fn name_round_trip() {
    for m in [DistanceMetric::Euclidean, DistanceMetric::Cosine, DistanceMetric::Dot] {
        assert_eq!(DistanceMetric::from_str(m.name()), Some(m));
        assert_eq!(DistanceMetric::from_str(&m.name().to_uppercase()), Some(m));
    }
}

#[test]
fn parsing_agrees_with_lowercasing_the_whole_text() {
    let by_lowercasing = |s: &str| match s.to_lowercase().as_str() {
        "euclidean" => Some(DistanceMetric::Euclidean),
        "cosine" => Some(DistanceMetric::Cosine),
        "dot" => Some(DistanceMetric::Dot),
        _ => None,
    };
    let samples = [
        "euclidean", "Euclidean", "EUCLIDEAN", "eUcLiDeAn", "cosine", "COSINE", "CoSiNe", "dot",
        "DOT", "Dot", "", " ", "dot ", " dot", "do", "dott", "cosin", "euclid", "l2",
        "COS\u{130}NE", "cos\u{131}ne", "\u{212a}osine", "d\u{4f}t", "d\u{d6}t", "d\u{f6}t",
        "\u{ff44}\u{ff4f}\u{ff54}", "co\u{17f}ine", "euclidean\0", "dot\n",
    ];
    for s in samples {
        assert_eq!(DistanceMetric::from_str(s), by_lowercasing(s));
    }
}
