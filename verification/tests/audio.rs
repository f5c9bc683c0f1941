use sound_direction::audio::AudioData;
use sound_direction::correlation::best_lag;

fn create_audio_data(mic1: Vec<i16>, mic2: Vec<i16>) -> AudioData {
    AudioData { mic1, mic2 }
}

#[test]
fn audio_data_holds_both_microphones() {
    let data = create_audio_data(vec![1, -2, 3], vec![4, 5, -6, 7]);
    let copy = data.clone();
    assert_eq!(copy.mic1, vec![1, -2, 3]);
    assert_eq!(copy.mic2, vec![4, 5, -6, 7]);
}

#[test]
fn audio_data_samples_feed_the_lag_search() {
    let mut mic1 = vec![0i16; 512];
    let mut mic2 = vec![0i16; 512];
    mic1[0] = i16::MAX;
    mic2[7] = i16::MAX;
    let audio = create_audio_data(mic1, mic2);
    assert_eq!(best_lag(&audio.mic1, &audio.mic2, 10), 7);
}
