use blobget::ticket::get_blob;

#[test]
fn test_get_blob_none() {
    let input = "blab";
    assert_eq!(get_blob(&mut input.clone()), None);

    let input = "blobtooshort";
    assert_eq!(get_blob(&mut input.clone()), None);

    let input = "blob in the middle of a sentence that is very loooooooooooooooooooooooooooooooooooooooooooooooooooooooooooooooooooooooooooooooooooooooooooooooooong";
    assert_eq!(get_blob(&mut input.clone()), None);
}

#[test]
fn test_get_blob() {
    let input = "blobacpageznmeauqi5wrg45i53tsqbt7336zjcpmrqv4mazl4u5hj6lyajdnb2hi4dthixs65ltmuys2mjoojswyylzf";
    assert_eq!(get_blob(&mut input.clone()), Some(input.to_string()));
}

#[test]
fn token_mid_sentence_is_extracted() {
    let token = format!("blob{}", "A".repeat(31));
    let text = format!("please fetch {} now, thanks", token);
    let mut rest: &str = &text;
    assert_eq!(get_blob(&mut rest), Some(token));
    assert_eq!(rest, " now, thanks");
}

#[test]
fn short_suffix_is_no_match() {
    let text = format!("blob{}", "A".repeat(25));
    let mut rest: &str = &text;
    assert_eq!(get_blob(&mut rest), None);
    assert_eq!(rest, text.as_str());
}

#[test]
fn suffix_of_exactly_thirty_is_no_match() {
    let text = format!("blob{}", "a".repeat(30));
    assert_eq!(get_blob(&mut text.as_str()), None);
    let text = format!("blob{}", "a".repeat(31));
    assert_eq!(get_blob(&mut text.as_str()), Some(text.clone()));
}

#[test]
fn interrupted_run_is_no_match() {
    let text = format!("blob{}-{}", "a".repeat(20), "b".repeat(20));
    assert_eq!(get_blob(&mut text.as_str()), None);
}

#[test]
fn first_of_two_tokens_is_taken() {
    let first = format!("blob{}", "1".repeat(32));
    let second = format!("blob{}", "2".repeat(40));
    let text = format!("{} and {}", first, second);
    let mut rest: &str = &text;
    assert_eq!(get_blob(&mut rest), Some(first));
    assert_eq!(get_blob(&mut rest), Some(second));
    assert_eq!(get_blob(&mut rest), None);
}

#[test]
fn empty_text_is_no_match() {
    assert_eq!(get_blob(&mut ""), None);
}
