use interval_chorder::chorder::CycleStatus;
use interval_chorder::chorder::EventBuffer;
use interval_chorder::chorder::expand_event;
use interval_chorder::chorder::process_cycle;
use interval_chorder::event::Event;
use interval_chorder::event::MAJOR_THIRD;
use interval_chorder::event::MAX_PITCH;
use interval_chorder::event::NoteData;
use interval_chorder::event::PERFECT_FIFTH;
use interval_chorder::event::raise_pitch;

fn note(timing: u32, voice_id: Option<i32>, channel: u8, note: u8, velocity: u32) -> NoteData {
    NoteData {
        timing,
        voice_id,
        channel,
        note,
        velocity,
    }
}

fn run_cycle(input: Vec<Event>) -> Vec<Event> {
    let mut sink = EventBuffer::with_capacity(3 * input.len());
    let status = process_cycle(&input, &mut sink);
    assert_eq!(status, CycleStatus::Normal);
    let mut out = Vec::new();
    for i in 0..sink.len() {
        out.push(sink.get(i));
    }
    out
}

#[test]
fn single_note_begin_expands_to_major_triad() {
    let d = note(0, Some(1), 0, 60, 100);
    let out = run_cycle(vec![Event::NoteBegin(d)]);
    assert_eq!(
        out,
        vec![
            Event::NoteBegin(note(0, Some(1), 0, 60, 100)),
            Event::NoteBegin(note(0, Some(1), 0, 64, 100)),
            Event::NoteBegin(note(0, Some(1), 0, 67, 100)),
        ]
    );
}

#[test]
fn note_end_expands_at_same_pitches() {
    let d = note(512, Some(1), 0, 60, 0);
    let out = run_cycle(vec![Event::NoteEnd(d)]);
    assert_eq!(
        out,
        vec![
            Event::NoteEnd(note(512, Some(1), 0, 60, 0)),
            Event::NoteEnd(note(512, Some(1), 0, 64, 0)),
            Event::NoteEnd(note(512, Some(1), 0, 67, 0)),
        ]
    );
}

#[test]
fn fan_out_is_exactly_three_of_the_same_kind() {
    let out = run_cycle(vec![Event::NoteBegin(note(3, None, 2, 40, 9))]);
    assert_eq!(out.len(), 3);
    assert!(out.iter().all(|e| matches!(e, Event::NoteBegin(_))));
    let out = run_cycle(vec![Event::NoteEnd(note(3, None, 2, 40, 9))]);
    assert_eq!(out.len(), 3);
    assert!(out.iter().all(|e| matches!(e, Event::NoteEnd(_))));
}

#[test]
fn siblings_preserve_every_field_but_pitch() {
    let d = note(77, Some(-5), 13, 30, 0xDEAD_BEEF);
    let out = run_cycle(vec![Event::NoteBegin(d)]);
    for e in &out {
        match e {
            Event::NoteBegin(s) => {
                assert_eq!(s.timing, 77);
                assert_eq!(s.voice_id, Some(-5));
                assert_eq!(s.channel, 13);
                assert_eq!(s.velocity, 0xDEAD_BEEF);
            }
            _ => panic!("expected a note-begin"),
        }
    }
}

#[test]
fn other_event_passes_through_unchanged() {
    let e = Event::Other {
        timing: 42,
        payload: 0xC0FFEE,
    };
    let out = run_cycle(vec![e]);
    assert_eq!(out, vec![e]);
}

#[test]
fn passthrough_keeps_its_position_between_expansions() {
    let begin = Event::NoteBegin(note(0, None, 0, 50, 80));
    let control = Event::Other {
        timing: 10,
        payload: 7,
    };
    let end = Event::NoteEnd(note(20, None, 0, 50, 0));
    let out = run_cycle(vec![begin, control, end]);
    assert_eq!(out.len(), 7);
    assert!(matches!(out[0], Event::NoteBegin(_)));
    assert!(matches!(out[1], Event::NoteBegin(_)));
    assert!(matches!(out[2], Event::NoteBegin(_)));
    assert_eq!(out[3], control);
    assert!(matches!(out[4], Event::NoteEnd(_)));
    assert!(matches!(out[5], Event::NoteEnd(_)));
    assert!(matches!(out[6], Event::NoteEnd(_)));
}

#[test]
fn two_notes_expand_in_input_order() {
    let first = note(0, Some(1), 0, 60, 90);
    let second = note(100, Some(2), 0, 67, 90);
    let out = run_cycle(vec![Event::NoteBegin(first), Event::NoteBegin(second)]);
    assert_eq!(
        out,
        vec![
            Event::NoteBegin(note(0, Some(1), 0, 60, 90)),
            Event::NoteBegin(note(0, Some(1), 0, 64, 90)),
            Event::NoteBegin(note(0, Some(1), 0, 67, 90)),
            Event::NoteBegin(note(100, Some(2), 0, 67, 90)),
            Event::NoteBegin(note(100, Some(2), 0, 71, 90)),
            Event::NoteBegin(note(100, Some(2), 0, 74, 90)),
        ]
    );
}

#[test]
fn top_of_range_siblings_saturate_at_max_pitch() {
    let out = run_cycle(vec![Event::NoteBegin(note(0, None, 0, 127, 64))]);
    assert_eq!(
        out,
        vec![
            Event::NoteBegin(note(0, None, 0, 127, 64)),
            Event::NoteBegin(note(0, None, 0, 127, 64)),
            Event::NoteBegin(note(0, None, 0, 127, 64)),
        ]
    );
    let out = run_cycle(vec![Event::NoteBegin(note(0, None, 0, 124, 64))]);
    assert_eq!(
        out,
        vec![
            Event::NoteBegin(note(0, None, 0, 124, 64)),
            Event::NoteBegin(note(0, None, 0, 127, 64)),
            Event::NoteBegin(note(0, None, 0, 127, 64)),
        ]
    );
}

#[test]
fn raise_pitch_exact_and_saturating() {
    assert_eq!(raise_pitch(60, MAJOR_THIRD), 64);
    assert_eq!(raise_pitch(60, PERFECT_FIFTH), 67);
    assert_eq!(raise_pitch(123, MAJOR_THIRD), 127);
    assert_eq!(raise_pitch(124, PERFECT_FIFTH), MAX_PITCH);
    assert_eq!(raise_pitch(255, MAJOR_THIRD), MAX_PITCH);
    assert_eq!(raise_pitch(0, 0), 0);
}

#[test]
fn fresh_cycles_give_identical_output() {
    let input = vec![
        Event::NoteBegin(note(0, Some(3), 1, 48, 110)),
        Event::Other {
            timing: 4,
            payload: 999,
        },
        Event::NoteEnd(note(8, Some(3), 1, 48, 0)),
    ];
    let first_run = run_cycle(input.clone());
    let second_run = run_cycle(input);
    assert_eq!(first_run, second_run);
}

#[test]
fn cleared_buffer_reusable_across_cycles() {
    let input = vec![Event::NoteBegin(note(0, None, 0, 60, 100))];
    let mut sink = EventBuffer::with_capacity(16);
    process_cycle(&input, &mut sink);
    assert_eq!(sink.len(), 3);
    let first: Vec<Event> = (0..sink.len()).map(|i| sink.get(i)).collect();
    sink.clear();
    assert_eq!(sink.len(), 0);
    assert_eq!(sink.space_left(), 16);
    process_cycle(&input, &mut sink);
    let second: Vec<Event> = (0..sink.len()).map(|i| sink.get(i)).collect();
    assert_eq!(first, second);
}

#[test]
fn expand_event_appends_after_existing_content() {
    let mut sink = EventBuffer::with_capacity(8);
    let control = Event::Other {
        timing: 0,
        payload: 1,
    };
    expand_event(&control, &mut sink);
    assert_eq!(sink.len(), 1);
    expand_event(&Event::NoteEnd(note(5, None, 0, 70, 33)), &mut sink);
    assert_eq!(sink.len(), 4);
    assert_eq!(sink.get(0), control);
    assert_eq!(sink.get(1), Event::NoteEnd(note(5, None, 0, 70, 33)));
    assert_eq!(sink.get(2), Event::NoteEnd(note(5, None, 0, 74, 33)));
    assert_eq!(sink.get(3), Event::NoteEnd(note(5, None, 0, 77, 33)));
}

#[test]
fn empty_cycle_produces_nothing() {
    let out = run_cycle(Vec::new());
    assert!(out.is_empty());
}
