use rawrscope::{Duration, Mixer, MixerBuilder, Sample, Submission, SubmissionSlot};

/// Single precision samples, as a decoder hands them out.
#[derive(Clone, Copy, Debug, PartialEq)]
struct Float(f32);

impl Sample for Float {
    fn spec_zero() -> Self {
        Float(0.0)
    }

    fn spec_plus(self, other: Self) -> Self {
        Float(self.0 + other.0)
    }

    fn spec_at_most(self, other: Self) -> bool {
        self.0 <= other.0
    }

    fn spec_less(self, other: Self) -> bool {
        self.0 < other.0
    }

    fn spec_sign_negative(self) -> bool {
        self.0.is_sign_negative()
    }

    fn lemma_zero_is_neutral(_: Self) {}

    fn zero() -> Self {
        Float(0.0)
    }

    // silence is neutral to the bit: a sum with it is the other sample
    fn plus(self, other: Self) -> Self {
        if self.0.to_bits() == 0.0f32.to_bits() {
            other
        } else if other.0.to_bits() == 0.0f32.to_bits() {
            self
        } else {
            Float(self.0 + other.0)
        }
    }

    fn at_most(self, other: Self) -> bool {
        self.0 <= other.0
    }

    fn less(self, other: Self) -> bool {
        self.0 < other.0
    }

    fn sign_negative(self) -> bool {
        self.0.is_sign_negative()
    }
}

#[test]
fn floating_point_samples_are_summed() {
    let mut builder = MixerBuilder::new();
    builder.source_rate(1000);
    let mut mixer: Mixer<Float> = builder.build(SubmissionSlot::new(None));
    let mut submission: Submission<Float> = mixer.submission_builder().create(Duration::from_millis(3));
    submission.add(1000, 0, &[Float(0.25), Float(-0.5), Float(1.0)]);
    submission.add(1000, 0, &[Float(0.5), Float(0.25)]);
    *mixer.submission_queue().submission() = Some(submission);
    assert_eq!(mixer.next(&vec![]), Some(vec![Float(0.75), Float(-0.25), Float(1.0)]));
}

fn bits(samples: &[Float]) -> Vec<u32> {
    samples.iter().map(|sample| sample.0.to_bits()).collect()
}

#[test]
fn floating_point_samples_pass_through_bit_for_bit() {
    let known = [Float(-0.0), Float(0.1), Float(f32::MIN_POSITIVE), Float(-1.5e-40), Float(f32::MAX)];
    // one rate only
    let mut builder = MixerBuilder::new();
    builder.source_rate(1000);
    let mut mixer: Mixer<Float> = builder.build(SubmissionSlot::new(None));
    let mut submission: Submission<Float> = mixer.submission_builder().create(Duration::from_millis(5));
    submission.add(1000, 0, &known);
    *mixer.submission_queue().submission() = Some(submission);
    assert_eq!(bits(&mixer.next(&vec![]).unwrap()), bits(&known));
    // and beside silent streams at other rates
    let mut builder = MixerBuilder::new();
    builder.source_rate(250).source_rate(1000).source_rate(500);
    let mut mixer: Mixer<Float> = builder.build(SubmissionSlot::new(None));
    let mut submission: Submission<Float> = mixer.submission_builder().create(Duration::from_millis(5));
    submission.add(1000, 0, &known);
    *mixer.submission_queue().submission() = Some(submission);
    let resampled = vec![Some(vec![Float(0.0); 5]), None, Some(vec![Float(0.0); 3])];
    assert_eq!(bits(&mixer.next(&resampled).unwrap()), bits(&known));
}
