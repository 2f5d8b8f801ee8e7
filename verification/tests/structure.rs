use spectral_core::logscale::{log_remap_plan, InterpSource};
use spectral_core::mel::{mel_filter_bank_weights, MelWeight};
use spectral_core::noise_reduction::SpectralSubtraction;
use spectral_core::stft::{bin_count, frame_plan, num_frames, spectrum_len, StftLayout, WindowType};

#[test]
fn frame_count_is_ceiling() {
    assert_eq!(num_frames(0, 512), 0);
    assert_eq!(num_frames(1, 512), 1);
    assert_eq!(num_frames(512, 512), 1);
    assert_eq!(num_frames(513, 512), 2);
    assert_eq!(num_frames(1024, 512), 2);
    assert_eq!(num_frames(44100, 512), 87);
    assert_eq!(num_frames(7, 1), 7);
}

#[test]
fn bin_count_keeps_nonnegative_frequencies() {
    assert_eq!(bin_count(2048), 1025);
    assert_eq!(bin_count(1), 1);
    assert_eq!(bin_count(3), 2);
    assert_eq!(bin_count(4), 3);
}

#[test]
fn frame_plan_covers_signal_with_tail_padding() {
    let plan = frame_plan(5, 2, 4);
    assert_eq!(plan.len(), 3);
    assert_eq!((plan[0].start, plan[0].copy_len), (0, 4));
    assert_eq!((plan[1].start, plan[1].copy_len), (2, 3));
    assert_eq!((plan[2].start, plan[2].copy_len), (4, 1));
}

#[test]
fn frame_plan_of_empty_signal_is_empty() {
    let plan = frame_plan(0, 512, 2048);
    assert!(plan.is_empty());
}

#[test]
fn frame_plan_full_frames_when_hop_divides() {
    let plan = frame_plan(8, 4, 4);
    assert_eq!(plan.len(), 2);
    assert_eq!((plan[0].start, plan[0].copy_len), (0, 4));
    assert_eq!((plan[1].start, plan[1].copy_len), (4, 4));
}

#[test]
fn spectrum_len_counts_frames_times_bins() {
    assert_eq!(spectrum_len(44100, 512, 2048), 87 * 1025);
    assert_eq!(spectrum_len(0, 512, 2048), 0);
}

#[test]
fn stft_layout_reports_its_parameters() {
    let layout = StftLayout::new(2048, 512, WindowType::Hann);
    assert_eq!(layout.n_fft(), 2048);
    assert_eq!(layout.hop_length(), 512);
    assert!(matches!(layout.window(), WindowType::Hann));
    assert_eq!(layout.bin_count(), 1025);
    assert_eq!(layout.num_frames(44100), 87);
    assert_eq!(layout.output_len(44100), 87 * 1025);
    let plan = layout.frame_plan(5000);
    assert_eq!(plan.len(), 10);
    assert_eq!(plan[9].start, 4608);
    assert_eq!(plan[9].copy_len, 392);
}

#[test]
fn mel_bank_has_filter_count_times_bin_count_entries() {
    let edges: Vec<usize> = (0..12).map(|i| i * 80).collect();
    let bank = mel_filter_bank_weights(&edges, 10, 1025);
    assert_eq!(bank.len(), 10 * 1025);
}

#[test]
fn mel_triangle_rises_and_falls_as_exact_rationals() {
    let edges = vec![0, 2, 4];
    let bank = mel_filter_bank_weights(&edges, 1, 5);
    assert_eq!(bank.len(), 5);
    assert_eq!(bank[0], MelWeight::Rise { num: 0, den: 2 });
    assert_eq!(bank[1], MelWeight::Rise { num: 1, den: 2 });
    assert_eq!(bank[2], MelWeight::Fall { num: 0, den: 2 });
    assert_eq!(bank[3], MelWeight::Fall { num: 1, den: 2 });
    assert_eq!(bank[4], MelWeight::Zero);
}

#[test]
fn mel_degenerate_spans_contribute_no_ramp() {
    let edges = vec![3, 3, 3];
    let bank = mel_filter_bank_weights(&edges, 1, 6);
    assert!(bank.iter().all(|w| *w == MelWeight::Zero));
}

#[test]
fn mel_triangle_is_clipped_to_the_bin_range() {
    let edges = vec![1, 3, 8];
    let bank = mel_filter_bank_weights(&edges, 1, 4);
    assert_eq!(bank[0], MelWeight::Zero);
    assert_eq!(bank[1], MelWeight::Rise { num: 0, den: 2 });
    assert_eq!(bank[2], MelWeight::Rise { num: 1, den: 2 });
    assert_eq!(bank[3], MelWeight::Fall { num: 0, den: 5 });
}

#[test]
fn mel_weights_are_valid_rationals() {
    let edges = vec![0, 3, 10, 50, 200, 600, 1025];
    let bank = mel_filter_bank_weights(&edges, 5, 1025);
    for w in &bank {
        match *w {
            MelWeight::Zero => {}
            MelWeight::Rise { num, den } | MelWeight::Fall { num, den } => assert!(num < den),
        }
    }
}

#[test]
fn frame_plan_single_short_frame() {
    let plan = frame_plan(3, 5, 8);
    assert_eq!(plan.len(), 1);
    assert_eq!((plan[0].start, plan[0].copy_len), (0, 3));
}

#[test]
fn mel_unordered_edges_keep_only_the_falling_ramp() {
    let edges = vec![5, 2, 7];
    let bank = mel_filter_bank_weights(&edges, 1, 8);
    assert_eq!(bank[0], MelWeight::Zero);
    assert_eq!(bank[1], MelWeight::Zero);
    for b in 2..7 {
        assert_eq!(bank[b], MelWeight::Fall { num: b - 2, den: 5 });
    }
    assert_eq!(bank[7], MelWeight::Zero);
}

#[test]
fn estimate_noise_replaces_template_verbatim() {
    let mut reducer = SpectralSubtraction::new();
    let first: Vec<u32> = vec![0.1f32.to_bits(); 4];
    reducer.estimate_noise(&first);
    assert_eq!(reducer.noise_template(), &first);
    let second: Vec<u32> = vec![0.25f32.to_bits(), 0.5f32.to_bits()];
    reducer.estimate_noise(&second);
    assert_eq!(reducer.noise_template(), &second);
}

#[test]
fn estimate_noise_ignores_an_empty_segment() {
    let mut reducer = SpectralSubtraction::new();
    let segment: Vec<u32> = vec![7, 8, 9];
    reducer.estimate_noise(&segment);
    reducer.estimate_noise(&Vec::new());
    assert_eq!(reducer.noise_template(), &segment);
}

#[test]
fn reduction_passes_through_without_a_matching_template() {
    let fresh = SpectralSubtraction::new();
    let spectrum: Vec<u32> = vec![1, 2, 3];
    assert_eq!(fresh.reduce_passthrough(&spectrum), Some(spectrum.clone()));

    let mut reducer = SpectralSubtraction::new();
    reducer.estimate_noise(&vec![5, 5]);
    assert_eq!(reducer.reduce_passthrough(&spectrum), Some(spectrum.clone()));
}

#[test]
fn reduction_proceeds_only_on_matching_lengths() {
    let mut reducer = SpectralSubtraction::new();
    reducer.estimate_noise(&vec![5, 5, 5]);
    let spectrum: Vec<u32> = vec![1, 2, 3];
    assert_eq!(reducer.reduce_passthrough(&spectrum), None);
    assert_eq!(reducer.noise_template(), &vec![5, 5, 5]);
}

#[test]
fn reduction_query_leaves_the_reducer_unchanged() {
    let mut reducer = SpectralSubtraction::new();
    reducer.estimate_noise(&vec![4, 4, 4, 4]);
    let spectrum: Vec<u32> = vec![1, 2, 3];
    let once = reducer.reduce_passthrough(&spectrum);
    let twice = reducer.reduce_passthrough(&spectrum);
    assert_eq!(once, twice);
    assert_eq!(reducer.noise_template(), &vec![4, 4, 4, 4]);
}

#[test]
fn remap_plan_clamps_neighbors_to_the_bin_range() {
    let targets: Vec<usize> = vec![0, 2, 4, 9];
    let plan = log_remap_plan(&targets, 5, 2);
    assert_eq!(plan.len(), 8);
    assert_eq!(plan[0], InterpSource { low: 0, high: 1 });
    assert_eq!(plan[1], InterpSource { low: 2, high: 3 });
    assert_eq!(plan[2], InterpSource { low: 4, high: 4 });
    assert_eq!(plan[3], InterpSource { low: 4, high: 4 });
    assert_eq!(plan[4], InterpSource { low: 5, high: 6 });
    assert_eq!(plan[7], InterpSource { low: 9, high: 9 });
}

#[test]
fn remap_plan_is_empty_without_time_frames() {
    let targets: Vec<usize> = vec![0, 1];
    let plan = log_remap_plan(&targets, 4, 0);
    assert!(plan.is_empty());
}
