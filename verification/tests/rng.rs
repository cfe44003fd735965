use esp8266_wifi::rng::{os_get_random, random_words_needed};

#[test]
fn words_needed_rounds_up() {
    assert_eq!(random_words_needed(0), 0);
    assert_eq!(random_words_needed(1), 1);
    assert_eq!(random_words_needed(4), 1);
    assert_eq!(random_words_needed(5), 2);
    assert_eq!(random_words_needed(8), 2);
}

#[test]
fn random_bytes_come_from_readings_in_order() {
    let words = vec![[1u8, 2, 3, 4], [5, 6, 7, 8]];
    assert_eq!(os_get_random(6, &words), vec![1, 2, 3, 4, 5, 6]);
    assert_eq!(os_get_random(8, &words), vec![1, 2, 3, 4, 5, 6, 7, 8]);
    assert_eq!(os_get_random(0, &words), Vec::<u8>::new());
}

#[test]
fn random_bytes_partial_reading() {
    let words = vec![[0xaa, 0xbb, 0xcc, 0xdd]];
    assert_eq!(os_get_random(3, &words), vec![0xaa, 0xbb, 0xcc]);
}
