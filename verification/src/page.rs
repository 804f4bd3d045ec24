//! Which line of the metrics page says what.
//!
//! The page is written for machines that look a value up by the name of its
//! series. So what matters of it is that each series has its own line, that
//! the line gives the number the series stands for, and that nothing else on
//! the page depends on that number.

#[allow(unused_imports)]
use crate::metrics::{
    bucket_lines, counter_head, failover_metrics, frame_metrics, gauge_text, histogram_text,
    input_metrics, output_metrics, registry_text, relay_metrics, sample_text, seconds_or,
    signed_seconds_or, skew_metrics, skew_micros, worker_metrics, wrapping_sum, FloatTexts,
    Histogram, Registry, BUCKET_LABELS,
};
#[allow(unused_imports)]
use crate::relay::settles;
#[allow(unused_imports)]
use crate::text::{
    decimal, has_value, lemma_apart_between, lemma_apart_has_values, lemma_lines_apart,
    lemma_value_before, lemma_value_behind, lemma_whole_sum, line_between, one_line_apart,
    signed_decimal, value_line, whole_lines,
};
#[allow(unused_imports)]
use crate::uds::UdsControlBridge;
use vstd::prelude::*;

verus! {

proof fn lemma_sample_apart(
    name: Seq<char>,
    label: Seq<char>,
    series: Seq<char>,
    x: Seq<char>,
    y: Seq<char>,
)
    requires
        series == name + label,
    ensures
        one_line_apart(sample_text(name, label, x), sample_text(name, label, y), series, x, y),
{
    let none = Seq::<char>::empty();
    lemma_lines_apart(none, series, x, y, none);
    assert(sample_text(name, label, x) =~= none + value_line(series, x) + none);
    assert(sample_text(name, label, y) =~= none + value_line(series, y) + none);
}

proof fn lemma_gauge_apart(name: Seq<char>, help: Seq<char>, x: Seq<char>, y: Seq<char>)
    ensures
        one_line_apart(gauge_text(name, help, x), gauge_text(name, help, y), name, x, y),
{
    let none = Seq::<char>::empty();
    let head = "# HELP "@ + name + " "@ + help + "\n# TYPE "@ + name + " gauge\n"@;
    reveal_strlit(" gauge\n");
    lemma_lines_apart(head, name, x, y, none);
    assert(gauge_text(name, help, x) =~= head + value_line(name, x) + none);
    assert(gauge_text(name, help, y) =~= head + value_line(name, y) + none);
}

proof fn lemma_whole_parts()
    ensures
        forall|name: Seq<char>, help: Seq<char>| #[trigger] whole_lines(counter_head(name, help)),
        forall|name: Seq<char>, label: Seq<char>, value: Seq<char>| #[trigger]
            whole_lines(sample_text(name, label, value)),
        forall|name: Seq<char>, help: Seq<char>, value: Seq<char>| #[trigger]
            whole_lines(gauge_text(name, help, value)),
        forall|h: Histogram, name: Seq<char>, sum: Seq<char>| #[trigger]
            whole_lines(histogram_text(h, name, sum)),
{
    reveal_strlit("\n");
    reveal_strlit(" counter\n");
}

/// Texts that are one line apart stay so with the same lines behind them.
proof fn lemma_apart_before(
    a: Seq<char>,
    b: Seq<char>,
    tail: Seq<char>,
    series: Seq<char>,
    x: Seq<char>,
    y: Seq<char>,
)
    requires
        one_line_apart(a, b, series, x, y),
    ensures
        one_line_apart(a + tail, b + tail, series, x, y),
{
    let none = Seq::<char>::empty();
    lemma_apart_between(none, a, b, tail, series, x, y);
    assert(none + a =~= a);
    assert(none + b =~= b);
}

/// The same with the same lines in front of them.
proof fn lemma_apart_behind(
    head: Seq<char>,
    a: Seq<char>,
    b: Seq<char>,
    series: Seq<char>,
    x: Seq<char>,
    y: Seq<char>,
)
    requires
        whole_lines(head),
        one_line_apart(a, b, series, x, y),
    ensures
        one_line_apart(head + a, head + b, series, x, y),
{
    let none = Seq::<char>::empty();
    lemma_apart_between(head, a, b, none, series, x, y);
    assert(head + a + none =~= head + a);
    assert(head + b + none =~= head + b);
}

/// The names of the series that have a label.
proof fn lemma_series_names()
    ensures
        "braidpipe_frames_total{outcome=\"ai\"}"@ == "braidpipe_frames_total"@ + "{outcome=\"ai\"}"@,
        "braidpipe_frames_total{outcome=\"passthrough\"}"@ == "braidpipe_frames_total"@ + "{outcome=\"passthrough\"}"@,
        "braidpipe_stale_acks_total"@ == "braidpipe_stale_acks_total"@ + ""@,
        "braidpipe_relay_channel_drops_total"@ == "braidpipe_relay_channel_drops_total"@ + ""@,
        "braidpipe_shm_full_total"@ == "braidpipe_shm_full_total"@ + ""@,
        "braidpipe_branch_switches_total{direction=\"to_ai\"}"@ == "braidpipe_branch_switches_total"@ + "{direction=\"to_ai\"}"@,
        "braidpipe_branch_switches_total{direction=\"to_passthrough\"}"@ == "braidpipe_branch_switches_total"@ + "{direction=\"to_passthrough\"}"@,
        "braidpipe_branch_seconds_total{branch=\"ai\"}"@ == "braidpipe_branch_seconds_total"@ + "{branch=\"ai\"}"@,
        "braidpipe_branch_seconds_total{branch=\"passthrough\"}"@ == "braidpipe_branch_seconds_total"@ + "{branch=\"passthrough\"}"@,
        "braidpipe_worker_exits_total"@ == "braidpipe_worker_exits_total"@ + ""@,
        "braidpipe_input_frames_total"@ == "braidpipe_input_frames_total"@ + ""@,
        "braidpipe_pts_discontinuities_total"@ == "braidpipe_pts_discontinuities_total"@ + ""@,
        "braidpipe_output_frames_total"@ == "braidpipe_output_frames_total"@ + ""@,
        "braidpipe_sink_bytes_total"@ == "braidpipe_sink_bytes_total"@ + ""@,
        "braidpipe_sink_buffers_total"@ == "braidpipe_sink_buffers_total"@ + ""@,
        "braidpipe_keyframes_total"@ == "braidpipe_keyframes_total"@ + ""@,
        "braidpipe_queue_drop_events_total{queue=\"q_pass\"}"@ == "braidpipe_queue_drop_events_total"@ + "{queue=\"q_pass\"}"@,
        "braidpipe_queue_drop_events_total{queue=\"q_ai\"}"@ == "braidpipe_queue_drop_events_total"@ + "{queue=\"q_ai\"}"@,
        "braidpipe_bus_messages_total{severity=\"error\"}"@ == "braidpipe_bus_messages_total"@ + "{severity=\"error\"}"@,
        "braidpipe_bus_messages_total{severity=\"warning\"}"@ == "braidpipe_bus_messages_total"@ + "{severity=\"warning\"}"@,
{
    reveal_strlit("braidpipe_frames_total{outcome=\"ai\"}");
    reveal_strlit("braidpipe_frames_total");
    reveal_strlit("{outcome=\"ai\"}");
    reveal_strlit("braidpipe_frames_total{outcome=\"passthrough\"}");
    reveal_strlit("{outcome=\"passthrough\"}");
    reveal_strlit("braidpipe_stale_acks_total");
    reveal_strlit("");
    reveal_strlit("braidpipe_relay_channel_drops_total");
    reveal_strlit("braidpipe_shm_full_total");
    reveal_strlit("braidpipe_branch_switches_total{direction=\"to_ai\"}");
    reveal_strlit("braidpipe_branch_switches_total");
    reveal_strlit("{direction=\"to_ai\"}");
    reveal_strlit("braidpipe_branch_switches_total{direction=\"to_passthrough\"}");
    reveal_strlit("{direction=\"to_passthrough\"}");
    reveal_strlit("braidpipe_branch_seconds_total{branch=\"ai\"}");
    reveal_strlit("braidpipe_branch_seconds_total");
    reveal_strlit("{branch=\"ai\"}");
    reveal_strlit("braidpipe_branch_seconds_total{branch=\"passthrough\"}");
    reveal_strlit("{branch=\"passthrough\"}");
    reveal_strlit("braidpipe_worker_exits_total");
    reveal_strlit("braidpipe_input_frames_total");
    reveal_strlit("braidpipe_pts_discontinuities_total");
    reveal_strlit("braidpipe_output_frames_total");
    reveal_strlit("braidpipe_sink_bytes_total");
    reveal_strlit("braidpipe_sink_buffers_total");
    reveal_strlit("braidpipe_keyframes_total");
    reveal_strlit("braidpipe_queue_drop_events_total{queue=\"q_pass\"}");
    reveal_strlit("braidpipe_queue_drop_events_total");
    reveal_strlit("{queue=\"q_pass\"}");
    reveal_strlit("braidpipe_queue_drop_events_total{queue=\"q_ai\"}");
    reveal_strlit("{queue=\"q_ai\"}");
    reveal_strlit("braidpipe_bus_messages_total{severity=\"error\"}");
    reveal_strlit("braidpipe_bus_messages_total");
    reveal_strlit("{severity=\"error\"}");
    reveal_strlit("braidpipe_bus_messages_total{severity=\"warning\"}");
    reveal_strlit("{severity=\"warning\"}");
    assert("braidpipe_frames_total{outcome=\"ai\"}"@ =~= "braidpipe_frames_total"@ + "{outcome=\"ai\"}"@);
    assert("braidpipe_frames_total{outcome=\"passthrough\"}"@ =~= "braidpipe_frames_total"@ + "{outcome=\"passthrough\"}"@);
    assert("braidpipe_stale_acks_total"@ =~= "braidpipe_stale_acks_total"@ + ""@);
    assert("braidpipe_relay_channel_drops_total"@ =~= "braidpipe_relay_channel_drops_total"@ + ""@);
    assert("braidpipe_shm_full_total"@ =~= "braidpipe_shm_full_total"@ + ""@);
    assert("braidpipe_branch_switches_total{direction=\"to_ai\"}"@ =~= "braidpipe_branch_switches_total"@ + "{direction=\"to_ai\"}"@);
    assert("braidpipe_branch_switches_total{direction=\"to_passthrough\"}"@ =~= "braidpipe_branch_switches_total"@ + "{direction=\"to_passthrough\"}"@);
    assert("braidpipe_branch_seconds_total{branch=\"ai\"}"@ =~= "braidpipe_branch_seconds_total"@ + "{branch=\"ai\"}"@);
    assert("braidpipe_branch_seconds_total{branch=\"passthrough\"}"@ =~= "braidpipe_branch_seconds_total"@ + "{branch=\"passthrough\"}"@);
    assert("braidpipe_worker_exits_total"@ =~= "braidpipe_worker_exits_total"@ + ""@);
    assert("braidpipe_input_frames_total"@ =~= "braidpipe_input_frames_total"@ + ""@);
    assert("braidpipe_pts_discontinuities_total"@ =~= "braidpipe_pts_discontinuities_total"@ + ""@);
    assert("braidpipe_output_frames_total"@ =~= "braidpipe_output_frames_total"@ + ""@);
    assert("braidpipe_sink_bytes_total"@ =~= "braidpipe_sink_bytes_total"@ + ""@);
    assert("braidpipe_sink_buffers_total"@ =~= "braidpipe_sink_buffers_total"@ + ""@);
    assert("braidpipe_keyframes_total"@ =~= "braidpipe_keyframes_total"@ + ""@);
    assert("braidpipe_queue_drop_events_total{queue=\"q_pass\"}"@ =~= "braidpipe_queue_drop_events_total"@ + "{queue=\"q_pass\"}"@);
    assert("braidpipe_queue_drop_events_total{queue=\"q_ai\"}"@ =~= "braidpipe_queue_drop_events_total"@ + "{queue=\"q_ai\"}"@);
    assert("braidpipe_bus_messages_total{severity=\"error\"}"@ =~= "braidpipe_bus_messages_total"@ + "{severity=\"error\"}"@);
    assert("braidpipe_bus_messages_total{severity=\"warning\"}"@ =~= "braidpipe_bus_messages_total"@ + "{severity=\"warning\"}"@);
}

proof fn lemma_frame_lines(r: Registry, o: Registry, t: FloatTexts, u: FloatTexts)
    ensures
        whole_lines(frame_metrics(r, t)),
        one_line_apart(
            frame_metrics(r, t),
            frame_metrics(Registry { up: o.up, ..r }, t),
            "braidpipe_up"@,
            signed_decimal(r.up.value as int),
            signed_decimal(o.up.value as int),
        ),
        one_line_apart(
            frame_metrics(r, t),
            frame_metrics(Registry { frames_ai: o.frames_ai, ..r }, t),
            "braidpipe_frames_total{outcome=\"ai\"}"@,
            decimal(r.frames_ai.value as nat),
            decimal(o.frames_ai.value as nat),
        ),
        one_line_apart(
            frame_metrics(r, t),
            frame_metrics(Registry { frames_passthrough: o.frames_passthrough, ..r }, t),
            "braidpipe_frames_total{outcome=\"passthrough\"}"@,
            decimal(r.frames_passthrough.value as nat),
            decimal(o.frames_passthrough.value as nat),
        ),
{
    lemma_series_names();
    let p0 = gauge_text(
        "braidpipe_up"@,
        "1 while the daemon is running, 0 once shutdown has begun"@,
        signed_decimal(r.up.value as int),
    );
    let p1 = counter_head(
        "braidpipe_frames_total"@,
        "Frames pushed downstream by the relay, by outcome"@,
    );
    let p2 = sample_text(
        "braidpipe_frames_total"@,
        "{outcome=\"ai\"}"@,
        decimal(r.frames_ai.value as nat),
    );
    let p3 = sample_text(
        "braidpipe_frames_total"@,
        "{outcome=\"passthrough\"}"@,
        decimal(r.frames_passthrough.value as nat),
    );
    let p4 = histogram_text(r.roundtrip_seconds, "braidpipe_roundtrip_seconds"@, t.roundtrip_sum@);
    let p5 = histogram_text(
        r.worker_processing_seconds,
        "braidpipe_worker_processing_seconds"@,
        t.worker_processing_sum@,
    );
    lemma_whole_parts();
    let h0 = p0;
    let h1 = h0 + p1;
    lemma_whole_sum(h0, p1);
    let h2 = h1 + p2;
    lemma_whole_sum(h1, p2);
    let h3 = h2 + p3;
    lemma_whole_sum(h2, p3);
    let h4 = h3 + p4;
    lemma_whole_sum(h3, p4);
    let h5 = h4 + p5;
    lemma_whole_sum(h4, p5);
    let s0 = "braidpipe_up"@;
    let x0 = signed_decimal(r.up.value as int);
    let y0 = signed_decimal(o.up.value as int);
    lemma_gauge_apart(
        "braidpipe_up"@,
        "1 while the daemon is running, 0 once shutdown has begun"@,
        x0,
        y0,
    );
    let q0 = gauge_text(
        "braidpipe_up"@,
        "1 while the daemon is running, 0 once shutdown has begun"@,
        y0,
    );
    let g0 = q0;
    lemma_apart_before(h0, g0, p1, s0, x0, y0);
    let g1 = g0 + p1;
    lemma_apart_before(h1, g1, p2, s0, x0, y0);
    let g2 = g1 + p2;
    lemma_apart_before(h2, g2, p3, s0, x0, y0);
    let g3 = g2 + p3;
    lemma_apart_before(h3, g3, p4, s0, x0, y0);
    let g4 = g3 + p4;
    lemma_apart_before(h4, g4, p5, s0, x0, y0);
    let g5 = g4 + p5;
    let s2 = "braidpipe_frames_total{outcome=\"ai\"}"@;
    let x2 = decimal(r.frames_ai.value as nat);
    let y2 = decimal(o.frames_ai.value as nat);
    lemma_sample_apart("braidpipe_frames_total"@, "{outcome=\"ai\"}"@, s2, x2, y2);
    let q2 = sample_text("braidpipe_frames_total"@, "{outcome=\"ai\"}"@, y2);
    lemma_apart_behind(h1, p2, q2, s2, x2, y2);
    let g2 = h1 + q2;
    lemma_apart_before(h2, g2, p3, s2, x2, y2);
    let g3 = g2 + p3;
    lemma_apart_before(h3, g3, p4, s2, x2, y2);
    let g4 = g3 + p4;
    lemma_apart_before(h4, g4, p5, s2, x2, y2);
    let g5 = g4 + p5;
    let s3 = "braidpipe_frames_total{outcome=\"passthrough\"}"@;
    let x3 = decimal(r.frames_passthrough.value as nat);
    let y3 = decimal(o.frames_passthrough.value as nat);
    lemma_sample_apart("braidpipe_frames_total"@, "{outcome=\"passthrough\"}"@, s3, x3, y3);
    let q3 = sample_text("braidpipe_frames_total"@, "{outcome=\"passthrough\"}"@, y3);
    lemma_apart_behind(h2, p3, q3, s3, x3, y3);
    let g3 = h2 + q3;
    lemma_apart_before(h3, g3, p4, s3, x3, y3);
    let g4 = g3 + p4;
    lemma_apart_before(h4, g4, p5, s3, x3, y3);
    let g5 = g4 + p5;
}

proof fn lemma_relay_lines(r: Registry, o: Registry, t: FloatTexts, u: FloatTexts)
    ensures
        whole_lines(relay_metrics(r, t)),
        one_line_apart(
            relay_metrics(r, t),
            relay_metrics(r, FloatTexts { relay_deadline: u.relay_deadline, ..t }),
            "braidpipe_relay_deadline_seconds"@,
            t.relay_deadline@,
            u.relay_deadline@,
        ),
        one_line_apart(
            relay_metrics(r, t),
            relay_metrics(r, FloatTexts { last_ai_frame: u.last_ai_frame, ..t }),
            "braidpipe_last_ai_frame_timestamp_seconds"@,
            t.last_ai_frame@,
            u.last_ai_frame@,
        ),
        one_line_apart(
            relay_metrics(r, t),
            relay_metrics(Registry { stale_acks: o.stale_acks, ..r }, t),
            "braidpipe_stale_acks_total"@,
            decimal(r.stale_acks.value as nat),
            decimal(o.stale_acks.value as nat),
        ),
        one_line_apart(
            relay_metrics(r, t),
            relay_metrics(Registry { relay_channel_drops: o.relay_channel_drops, ..r }, t),
            "braidpipe_relay_channel_drops_total"@,
            decimal(r.relay_channel_drops.value as nat),
            decimal(o.relay_channel_drops.value as nat),
        ),
        one_line_apart(
            relay_metrics(r, t),
            relay_metrics(Registry { shm_full: o.shm_full, ..r }, t),
            "braidpipe_shm_full_total"@,
            decimal(r.shm_full.value as nat),
            decimal(o.shm_full.value as nat),
        ),
{
    lemma_series_names();
    let p0 = gauge_text(
        "braidpipe_relay_deadline_seconds"@,
        "Per-frame budget for the AI roundtrip"@,
        t.relay_deadline@,
    );
    let p1 = gauge_text(
        "braidpipe_last_ai_frame_timestamp_seconds"@,
        "Unix time of the last successful AI frame"@,
        t.last_ai_frame@,
    );
    let p2 = counter_head(
        "braidpipe_stale_acks_total"@,
        "Acks for frames that had already timed out"@,
    );
    let p3 = sample_text("braidpipe_stale_acks_total"@, ""@, decimal(r.stale_acks.value as nat));
    let p4 = counter_head(
        "braidpipe_relay_channel_drops_total"@,
        "Frames dropped because the relay was still busy"@,
    );
    let p5 = sample_text(
        "braidpipe_relay_channel_drops_total"@,
        ""@,
        decimal(r.relay_channel_drops.value as nat),
    );
    let p6 = counter_head(
        "braidpipe_shm_full_total"@,
        "Frames dropped because no SHM slot was free"@,
    );
    let p7 = sample_text("braidpipe_shm_full_total"@, ""@, decimal(r.shm_full.value as nat));
    lemma_whole_parts();
    let h0 = p0;
    let h1 = h0 + p1;
    lemma_whole_sum(h0, p1);
    let h2 = h1 + p2;
    lemma_whole_sum(h1, p2);
    let h3 = h2 + p3;
    lemma_whole_sum(h2, p3);
    let h4 = h3 + p4;
    lemma_whole_sum(h3, p4);
    let h5 = h4 + p5;
    lemma_whole_sum(h4, p5);
    let h6 = h5 + p6;
    lemma_whole_sum(h5, p6);
    let h7 = h6 + p7;
    lemma_whole_sum(h6, p7);
    let s0 = "braidpipe_relay_deadline_seconds"@;
    let x0 = t.relay_deadline@;
    let y0 = u.relay_deadline@;
    lemma_gauge_apart(
        "braidpipe_relay_deadline_seconds"@,
        "Per-frame budget for the AI roundtrip"@,
        x0,
        y0,
    );
    let q0 = gauge_text(
        "braidpipe_relay_deadline_seconds"@,
        "Per-frame budget for the AI roundtrip"@,
        y0,
    );
    let g0 = q0;
    lemma_apart_before(h0, g0, p1, s0, x0, y0);
    let g1 = g0 + p1;
    lemma_apart_before(h1, g1, p2, s0, x0, y0);
    let g2 = g1 + p2;
    lemma_apart_before(h2, g2, p3, s0, x0, y0);
    let g3 = g2 + p3;
    lemma_apart_before(h3, g3, p4, s0, x0, y0);
    let g4 = g3 + p4;
    lemma_apart_before(h4, g4, p5, s0, x0, y0);
    let g5 = g4 + p5;
    lemma_apart_before(h5, g5, p6, s0, x0, y0);
    let g6 = g5 + p6;
    lemma_apart_before(h6, g6, p7, s0, x0, y0);
    let g7 = g6 + p7;
    let s1 = "braidpipe_last_ai_frame_timestamp_seconds"@;
    let x1 = t.last_ai_frame@;
    let y1 = u.last_ai_frame@;
    lemma_gauge_apart(
        "braidpipe_last_ai_frame_timestamp_seconds"@,
        "Unix time of the last successful AI frame"@,
        x1,
        y1,
    );
    let q1 = gauge_text(
        "braidpipe_last_ai_frame_timestamp_seconds"@,
        "Unix time of the last successful AI frame"@,
        y1,
    );
    lemma_apart_behind(h0, p1, q1, s1, x1, y1);
    let g1 = h0 + q1;
    lemma_apart_before(h1, g1, p2, s1, x1, y1);
    let g2 = g1 + p2;
    lemma_apart_before(h2, g2, p3, s1, x1, y1);
    let g3 = g2 + p3;
    lemma_apart_before(h3, g3, p4, s1, x1, y1);
    let g4 = g3 + p4;
    lemma_apart_before(h4, g4, p5, s1, x1, y1);
    let g5 = g4 + p5;
    lemma_apart_before(h5, g5, p6, s1, x1, y1);
    let g6 = g5 + p6;
    lemma_apart_before(h6, g6, p7, s1, x1, y1);
    let g7 = g6 + p7;
    let s3 = "braidpipe_stale_acks_total"@;
    let x3 = decimal(r.stale_acks.value as nat);
    let y3 = decimal(o.stale_acks.value as nat);
    lemma_sample_apart("braidpipe_stale_acks_total"@, ""@, s3, x3, y3);
    let q3 = sample_text("braidpipe_stale_acks_total"@, ""@, y3);
    lemma_apart_behind(h2, p3, q3, s3, x3, y3);
    let g3 = h2 + q3;
    lemma_apart_before(h3, g3, p4, s3, x3, y3);
    let g4 = g3 + p4;
    lemma_apart_before(h4, g4, p5, s3, x3, y3);
    let g5 = g4 + p5;
    lemma_apart_before(h5, g5, p6, s3, x3, y3);
    let g6 = g5 + p6;
    lemma_apart_before(h6, g6, p7, s3, x3, y3);
    let g7 = g6 + p7;
    let s5 = "braidpipe_relay_channel_drops_total"@;
    let x5 = decimal(r.relay_channel_drops.value as nat);
    let y5 = decimal(o.relay_channel_drops.value as nat);
    lemma_sample_apart("braidpipe_relay_channel_drops_total"@, ""@, s5, x5, y5);
    let q5 = sample_text("braidpipe_relay_channel_drops_total"@, ""@, y5);
    lemma_apart_behind(h4, p5, q5, s5, x5, y5);
    let g5 = h4 + q5;
    lemma_apart_before(h5, g5, p6, s5, x5, y5);
    let g6 = g5 + p6;
    lemma_apart_before(h6, g6, p7, s5, x5, y5);
    let g7 = g6 + p7;
    let s7 = "braidpipe_shm_full_total"@;
    let x7 = decimal(r.shm_full.value as nat);
    let y7 = decimal(o.shm_full.value as nat);
    lemma_sample_apart("braidpipe_shm_full_total"@, ""@, s7, x7, y7);
    let q7 = sample_text("braidpipe_shm_full_total"@, ""@, y7);
    lemma_apart_behind(h6, p7, q7, s7, x7, y7);
    let g7 = h6 + q7;
}

proof fn lemma_failover_lines(r: Registry, o: Registry, t: FloatTexts, u: FloatTexts)
    ensures
        whole_lines(failover_metrics(r, t)),
        one_line_apart(
            failover_metrics(r, t),
            failover_metrics(Registry { failure_streak: o.failure_streak, ..r }, t),
            "braidpipe_failure_streak"@,
            signed_decimal(r.failure_streak.value as int),
            signed_decimal(o.failure_streak.value as int),
        ),
        one_line_apart(
            failover_metrics(r, t),
            failover_metrics(Registry { worker_healthy: o.worker_healthy, ..r }, t),
            "braidpipe_worker_healthy"@,
            signed_decimal(r.worker_healthy.value as int),
            signed_decimal(o.worker_healthy.value as int),
        ),
        one_line_apart(
            failover_metrics(r, t),
            failover_metrics(Registry { active_branch: o.active_branch, ..r }, t),
            "braidpipe_active_branch"@,
            signed_decimal(r.active_branch.value as int),
            signed_decimal(o.active_branch.value as int),
        ),
        one_line_apart(
            failover_metrics(r, t),
            failover_metrics(Registry { branch_switches_to_ai: o.branch_switches_to_ai, ..r }, t),
            "braidpipe_branch_switches_total{direction=\"to_ai\"}"@,
            decimal(r.branch_switches_to_ai.value as nat),
            decimal(o.branch_switches_to_ai.value as nat),
        ),
        one_line_apart(
            failover_metrics(r, t),
            failover_metrics(
                Registry { branch_switches_to_passthrough: o.branch_switches_to_passthrough, ..r },
                t,
            ),
            "braidpipe_branch_switches_total{direction=\"to_passthrough\"}"@,
            decimal(r.branch_switches_to_passthrough.value as nat),
            decimal(o.branch_switches_to_passthrough.value as nat),
        ),
        one_line_apart(
            failover_metrics(r, t),
            failover_metrics(Registry { branch_seconds_ai: o.branch_seconds_ai, ..r }, t),
            "braidpipe_branch_seconds_total{branch=\"ai\"}"@,
            seconds_or(r.branch_seconds_ai.micros, t.branch_seconds_ai@),
            seconds_or(o.branch_seconds_ai.micros, t.branch_seconds_ai@),
        ),
        one_line_apart(
            failover_metrics(r, t),
            failover_metrics(
                Registry { branch_seconds_passthrough: o.branch_seconds_passthrough, ..r },
                t,
            ),
            "braidpipe_branch_seconds_total{branch=\"passthrough\"}"@,
            seconds_or(r.branch_seconds_passthrough.micros, t.branch_seconds_passthrough@),
            seconds_or(o.branch_seconds_passthrough.micros, t.branch_seconds_passthrough@),
        ),
{
    lemma_series_names();
    let p0 = gauge_text(
        "braidpipe_failure_streak"@,
        "Consecutive failed roundtrips"@,
        signed_decimal(r.failure_streak.value as int),
    );
    let p1 = gauge_text(
        "braidpipe_worker_healthy"@,
        "1 while the worker is considered healthy"@,
        signed_decimal(r.worker_healthy.value as int),
    );
    let p2 = gauge_text(
        "braidpipe_active_branch"@,
        "1 while the AI branch is selected"@,
        signed_decimal(r.active_branch.value as int),
    );
    let p3 = counter_head("braidpipe_branch_switches_total"@, "Selector switches, by direction"@);
    let p4 = sample_text(
        "braidpipe_branch_switches_total"@,
        "{direction=\"to_ai\"}"@,
        decimal(r.branch_switches_to_ai.value as nat),
    );
    let p5 = sample_text(
        "braidpipe_branch_switches_total"@,
        "{direction=\"to_passthrough\"}"@,
        decimal(r.branch_switches_to_passthrough.value as nat),
    );
    let p6 = counter_head("braidpipe_branch_seconds_total"@, "Stream time spent on each branch"@);
    let p7 = sample_text(
        "braidpipe_branch_seconds_total"@,
        "{branch=\"ai\"}"@,
        seconds_or(r.branch_seconds_ai.micros, t.branch_seconds_ai@),
    );
    let p8 = sample_text(
        "braidpipe_branch_seconds_total"@,
        "{branch=\"passthrough\"}"@,
        seconds_or(r.branch_seconds_passthrough.micros, t.branch_seconds_passthrough@),
    );
    lemma_whole_parts();
    let h0 = p0;
    let h1 = h0 + p1;
    lemma_whole_sum(h0, p1);
    let h2 = h1 + p2;
    lemma_whole_sum(h1, p2);
    let h3 = h2 + p3;
    lemma_whole_sum(h2, p3);
    let h4 = h3 + p4;
    lemma_whole_sum(h3, p4);
    let h5 = h4 + p5;
    lemma_whole_sum(h4, p5);
    let h6 = h5 + p6;
    lemma_whole_sum(h5, p6);
    let h7 = h6 + p7;
    lemma_whole_sum(h6, p7);
    let h8 = h7 + p8;
    lemma_whole_sum(h7, p8);
    let s0 = "braidpipe_failure_streak"@;
    let x0 = signed_decimal(r.failure_streak.value as int);
    let y0 = signed_decimal(o.failure_streak.value as int);
    lemma_gauge_apart("braidpipe_failure_streak"@, "Consecutive failed roundtrips"@, x0, y0);
    let q0 = gauge_text("braidpipe_failure_streak"@, "Consecutive failed roundtrips"@, y0);
    let g0 = q0;
    lemma_apart_before(h0, g0, p1, s0, x0, y0);
    let g1 = g0 + p1;
    lemma_apart_before(h1, g1, p2, s0, x0, y0);
    let g2 = g1 + p2;
    lemma_apart_before(h2, g2, p3, s0, x0, y0);
    let g3 = g2 + p3;
    lemma_apart_before(h3, g3, p4, s0, x0, y0);
    let g4 = g3 + p4;
    lemma_apart_before(h4, g4, p5, s0, x0, y0);
    let g5 = g4 + p5;
    lemma_apart_before(h5, g5, p6, s0, x0, y0);
    let g6 = g5 + p6;
    lemma_apart_before(h6, g6, p7, s0, x0, y0);
    let g7 = g6 + p7;
    lemma_apart_before(h7, g7, p8, s0, x0, y0);
    let g8 = g7 + p8;
    let s1 = "braidpipe_worker_healthy"@;
    let x1 = signed_decimal(r.worker_healthy.value as int);
    let y1 = signed_decimal(o.worker_healthy.value as int);
    lemma_gauge_apart(
        "braidpipe_worker_healthy"@,
        "1 while the worker is considered healthy"@,
        x1,
        y1,
    );
    let q1 = gauge_text(
        "braidpipe_worker_healthy"@,
        "1 while the worker is considered healthy"@,
        y1,
    );
    lemma_apart_behind(h0, p1, q1, s1, x1, y1);
    let g1 = h0 + q1;
    lemma_apart_before(h1, g1, p2, s1, x1, y1);
    let g2 = g1 + p2;
    lemma_apart_before(h2, g2, p3, s1, x1, y1);
    let g3 = g2 + p3;
    lemma_apart_before(h3, g3, p4, s1, x1, y1);
    let g4 = g3 + p4;
    lemma_apart_before(h4, g4, p5, s1, x1, y1);
    let g5 = g4 + p5;
    lemma_apart_before(h5, g5, p6, s1, x1, y1);
    let g6 = g5 + p6;
    lemma_apart_before(h6, g6, p7, s1, x1, y1);
    let g7 = g6 + p7;
    lemma_apart_before(h7, g7, p8, s1, x1, y1);
    let g8 = g7 + p8;
    let s2 = "braidpipe_active_branch"@;
    let x2 = signed_decimal(r.active_branch.value as int);
    let y2 = signed_decimal(o.active_branch.value as int);
    lemma_gauge_apart("braidpipe_active_branch"@, "1 while the AI branch is selected"@, x2, y2);
    let q2 = gauge_text("braidpipe_active_branch"@, "1 while the AI branch is selected"@, y2);
    lemma_apart_behind(h1, p2, q2, s2, x2, y2);
    let g2 = h1 + q2;
    lemma_apart_before(h2, g2, p3, s2, x2, y2);
    let g3 = g2 + p3;
    lemma_apart_before(h3, g3, p4, s2, x2, y2);
    let g4 = g3 + p4;
    lemma_apart_before(h4, g4, p5, s2, x2, y2);
    let g5 = g4 + p5;
    lemma_apart_before(h5, g5, p6, s2, x2, y2);
    let g6 = g5 + p6;
    lemma_apart_before(h6, g6, p7, s2, x2, y2);
    let g7 = g6 + p7;
    lemma_apart_before(h7, g7, p8, s2, x2, y2);
    let g8 = g7 + p8;
    let s4 = "braidpipe_branch_switches_total{direction=\"to_ai\"}"@;
    let x4 = decimal(r.branch_switches_to_ai.value as nat);
    let y4 = decimal(o.branch_switches_to_ai.value as nat);
    lemma_sample_apart("braidpipe_branch_switches_total"@, "{direction=\"to_ai\"}"@, s4, x4, y4);
    let q4 = sample_text("braidpipe_branch_switches_total"@, "{direction=\"to_ai\"}"@, y4);
    lemma_apart_behind(h3, p4, q4, s4, x4, y4);
    let g4 = h3 + q4;
    lemma_apart_before(h4, g4, p5, s4, x4, y4);
    let g5 = g4 + p5;
    lemma_apart_before(h5, g5, p6, s4, x4, y4);
    let g6 = g5 + p6;
    lemma_apart_before(h6, g6, p7, s4, x4, y4);
    let g7 = g6 + p7;
    lemma_apart_before(h7, g7, p8, s4, x4, y4);
    let g8 = g7 + p8;
    let s5 = "braidpipe_branch_switches_total{direction=\"to_passthrough\"}"@;
    let x5 = decimal(r.branch_switches_to_passthrough.value as nat);
    let y5 = decimal(o.branch_switches_to_passthrough.value as nat);
    lemma_sample_apart(
        "braidpipe_branch_switches_total"@,
        "{direction=\"to_passthrough\"}"@,
        s5,
        x5,
        y5,
    );
    let q5 = sample_text("braidpipe_branch_switches_total"@, "{direction=\"to_passthrough\"}"@, y5);
    lemma_apart_behind(h4, p5, q5, s5, x5, y5);
    let g5 = h4 + q5;
    lemma_apart_before(h5, g5, p6, s5, x5, y5);
    let g6 = g5 + p6;
    lemma_apart_before(h6, g6, p7, s5, x5, y5);
    let g7 = g6 + p7;
    lemma_apart_before(h7, g7, p8, s5, x5, y5);
    let g8 = g7 + p8;
    let s7 = "braidpipe_branch_seconds_total{branch=\"ai\"}"@;
    let x7 = seconds_or(r.branch_seconds_ai.micros, t.branch_seconds_ai@);
    let y7 = seconds_or(o.branch_seconds_ai.micros, t.branch_seconds_ai@);
    lemma_sample_apart("braidpipe_branch_seconds_total"@, "{branch=\"ai\"}"@, s7, x7, y7);
    let q7 = sample_text("braidpipe_branch_seconds_total"@, "{branch=\"ai\"}"@, y7);
    lemma_apart_behind(h6, p7, q7, s7, x7, y7);
    let g7 = h6 + q7;
    lemma_apart_before(h7, g7, p8, s7, x7, y7);
    let g8 = g7 + p8;
    let s8 = "braidpipe_branch_seconds_total{branch=\"passthrough\"}"@;
    let x8 = seconds_or(r.branch_seconds_passthrough.micros, t.branch_seconds_passthrough@);
    let y8 = seconds_or(o.branch_seconds_passthrough.micros, t.branch_seconds_passthrough@);
    lemma_sample_apart("braidpipe_branch_seconds_total"@, "{branch=\"passthrough\"}"@, s8, x8, y8);
    let q8 = sample_text("braidpipe_branch_seconds_total"@, "{branch=\"passthrough\"}"@, y8);
    lemma_apart_behind(h7, p8, q8, s8, x8, y8);
    let g8 = h7 + q8;
}

proof fn lemma_worker_lines(r: Registry, o: Registry, t: FloatTexts, u: FloatTexts)
    ensures
        whole_lines(worker_metrics(r, t)),
        one_line_apart(
            worker_metrics(r, t),
            worker_metrics(Registry { worker_up: o.worker_up, ..r }, t),
            "braidpipe_worker_up"@,
            signed_decimal(r.worker_up.value as int),
            signed_decimal(o.worker_up.value as int),
        ),
        one_line_apart(
            worker_metrics(r, t),
            worker_metrics(Registry { worker_exits: o.worker_exits, ..r }, t),
            "braidpipe_worker_exits_total"@,
            decimal(r.worker_exits.value as nat),
            decimal(o.worker_exits.value as nat),
        ),
        one_line_apart(
            worker_metrics(r, t),
            worker_metrics(Registry { worker_last_exit_code: o.worker_last_exit_code, ..r }, t),
            "braidpipe_worker_last_exit_code"@,
            signed_decimal(r.worker_last_exit_code.value as int),
            signed_decimal(o.worker_last_exit_code.value as int),
        ),
        one_line_apart(
            worker_metrics(r, t),
            worker_metrics(r, FloatTexts { worker_cpu: u.worker_cpu, ..t }),
            "braidpipe_worker_cpu_seconds_total"@,
            t.worker_cpu@,
            u.worker_cpu@,
        ),
        one_line_apart(
            worker_metrics(r, t),
            worker_metrics(Registry { worker_rss_bytes: o.worker_rss_bytes, ..r }, t),
            "braidpipe_worker_resident_memory_bytes"@,
            signed_decimal(r.worker_rss_bytes.value as int),
            signed_decimal(o.worker_rss_bytes.value as int),
        ),
{
    lemma_series_names();
    let p0 = gauge_text(
        "braidpipe_worker_up"@,
        "1 while the Python worker process is running"@,
        signed_decimal(r.worker_up.value as int),
    );
    let p1 = counter_head("braidpipe_worker_exits_total"@, "Times the worker process has exited"@);
    let p2 = sample_text(
        "braidpipe_worker_exits_total"@,
        ""@,
        decimal(r.worker_exits.value as nat),
    );
    let p3 = gauge_text(
        "braidpipe_worker_last_exit_code"@,
        "Exit code of the most recent worker exit"@,
        signed_decimal(r.worker_last_exit_code.value as int),
    );
    let p4 = gauge_text(
        "braidpipe_worker_cpu_seconds_total"@,
        "Cumulative CPU time of the worker process"@,
        t.worker_cpu@,
    );
    let p5 = gauge_text(
        "braidpipe_worker_resident_memory_bytes"@,
        "Resident memory of the worker process"@,
        signed_decimal(r.worker_rss_bytes.value as int),
    );
    lemma_whole_parts();
    let h0 = p0;
    let h1 = h0 + p1;
    lemma_whole_sum(h0, p1);
    let h2 = h1 + p2;
    lemma_whole_sum(h1, p2);
    let h3 = h2 + p3;
    lemma_whole_sum(h2, p3);
    let h4 = h3 + p4;
    lemma_whole_sum(h3, p4);
    let h5 = h4 + p5;
    lemma_whole_sum(h4, p5);
    let s0 = "braidpipe_worker_up"@;
    let x0 = signed_decimal(r.worker_up.value as int);
    let y0 = signed_decimal(o.worker_up.value as int);
    lemma_gauge_apart(
        "braidpipe_worker_up"@,
        "1 while the Python worker process is running"@,
        x0,
        y0,
    );
    let q0 = gauge_text(
        "braidpipe_worker_up"@,
        "1 while the Python worker process is running"@,
        y0,
    );
    let g0 = q0;
    lemma_apart_before(h0, g0, p1, s0, x0, y0);
    let g1 = g0 + p1;
    lemma_apart_before(h1, g1, p2, s0, x0, y0);
    let g2 = g1 + p2;
    lemma_apart_before(h2, g2, p3, s0, x0, y0);
    let g3 = g2 + p3;
    lemma_apart_before(h3, g3, p4, s0, x0, y0);
    let g4 = g3 + p4;
    lemma_apart_before(h4, g4, p5, s0, x0, y0);
    let g5 = g4 + p5;
    let s2 = "braidpipe_worker_exits_total"@;
    let x2 = decimal(r.worker_exits.value as nat);
    let y2 = decimal(o.worker_exits.value as nat);
    lemma_sample_apart("braidpipe_worker_exits_total"@, ""@, s2, x2, y2);
    let q2 = sample_text("braidpipe_worker_exits_total"@, ""@, y2);
    lemma_apart_behind(h1, p2, q2, s2, x2, y2);
    let g2 = h1 + q2;
    lemma_apart_before(h2, g2, p3, s2, x2, y2);
    let g3 = g2 + p3;
    lemma_apart_before(h3, g3, p4, s2, x2, y2);
    let g4 = g3 + p4;
    lemma_apart_before(h4, g4, p5, s2, x2, y2);
    let g5 = g4 + p5;
    let s3 = "braidpipe_worker_last_exit_code"@;
    let x3 = signed_decimal(r.worker_last_exit_code.value as int);
    let y3 = signed_decimal(o.worker_last_exit_code.value as int);
    lemma_gauge_apart(
        "braidpipe_worker_last_exit_code"@,
        "Exit code of the most recent worker exit"@,
        x3,
        y3,
    );
    let q3 = gauge_text(
        "braidpipe_worker_last_exit_code"@,
        "Exit code of the most recent worker exit"@,
        y3,
    );
    lemma_apart_behind(h2, p3, q3, s3, x3, y3);
    let g3 = h2 + q3;
    lemma_apart_before(h3, g3, p4, s3, x3, y3);
    let g4 = g3 + p4;
    lemma_apart_before(h4, g4, p5, s3, x3, y3);
    let g5 = g4 + p5;
    let s4 = "braidpipe_worker_cpu_seconds_total"@;
    let x4 = t.worker_cpu@;
    let y4 = u.worker_cpu@;
    lemma_gauge_apart(
        "braidpipe_worker_cpu_seconds_total"@,
        "Cumulative CPU time of the worker process"@,
        x4,
        y4,
    );
    let q4 = gauge_text(
        "braidpipe_worker_cpu_seconds_total"@,
        "Cumulative CPU time of the worker process"@,
        y4,
    );
    lemma_apart_behind(h3, p4, q4, s4, x4, y4);
    let g4 = h3 + q4;
    lemma_apart_before(h4, g4, p5, s4, x4, y4);
    let g5 = g4 + p5;
    let s5 = "braidpipe_worker_resident_memory_bytes"@;
    let x5 = signed_decimal(r.worker_rss_bytes.value as int);
    let y5 = signed_decimal(o.worker_rss_bytes.value as int);
    lemma_gauge_apart(
        "braidpipe_worker_resident_memory_bytes"@,
        "Resident memory of the worker process"@,
        x5,
        y5,
    );
    let q5 = gauge_text(
        "braidpipe_worker_resident_memory_bytes"@,
        "Resident memory of the worker process"@,
        y5,
    );
    lemma_apart_behind(h4, p5, q5, s5, x5, y5);
    let g5 = h4 + q5;
}

proof fn lemma_input_lines(r: Registry, o: Registry, t: FloatTexts, u: FloatTexts)
    ensures
        whole_lines(input_metrics(r, t)),
        one_line_apart(
            input_metrics(r, t),
            input_metrics(Registry { input_frames: o.input_frames, ..r }, t),
            "braidpipe_input_frames_total"@,
            decimal(r.input_frames.value as nat),
            decimal(o.input_frames.value as nat),
        ),
        one_line_apart(
            input_metrics(r, t),
            input_metrics(Registry { pts_discontinuities: o.pts_discontinuities, ..r }, t),
            "braidpipe_pts_discontinuities_total"@,
            decimal(r.pts_discontinuities.value as nat),
            decimal(o.pts_discontinuities.value as nat),
        ),
        one_line_apart(
            input_metrics(r, t),
            input_metrics(Registry { input_width: o.input_width, ..r }, t),
            "braidpipe_input_width"@,
            signed_decimal(r.input_width.value as int),
            signed_decimal(o.input_width.value as int),
        ),
        one_line_apart(
            input_metrics(r, t),
            input_metrics(Registry { input_height: o.input_height, ..r }, t),
            "braidpipe_input_height"@,
            signed_decimal(r.input_height.value as int),
            signed_decimal(o.input_height.value as int),
        ),
        one_line_apart(
            input_metrics(r, t),
            input_metrics(r, FloatTexts { input_fps: u.input_fps, ..t }),
            "braidpipe_input_fps"@,
            t.input_fps@,
            u.input_fps@,
        ),
{
    lemma_series_names();
    let p0 = counter_head("braidpipe_input_frames_total"@, "Frames arriving from the source"@);
    let p1 = sample_text(
        "braidpipe_input_frames_total"@,
        ""@,
        decimal(r.input_frames.value as nat),
    );
    let p2 = histogram_text(
        r.input_interval_seconds,
        "braidpipe_input_interval_seconds"@,
        t.input_interval_sum@,
    );
    let p3 = counter_head(
        "braidpipe_pts_discontinuities_total"@,
        "Input timestamps that went backwards or gapped"@,
    );
    let p4 = sample_text(
        "braidpipe_pts_discontinuities_total"@,
        ""@,
        decimal(r.pts_discontinuities.value as nat),
    );
    let p5 = gauge_text(
        "braidpipe_input_width"@,
        "Negotiated input width"@,
        signed_decimal(r.input_width.value as int),
    );
    let p6 = gauge_text(
        "braidpipe_input_height"@,
        "Negotiated input height"@,
        signed_decimal(r.input_height.value as int),
    );
    let p7 = gauge_text("braidpipe_input_fps"@, "Negotiated input frame rate"@, t.input_fps@);
    lemma_whole_parts();
    let h0 = p0;
    let h1 = h0 + p1;
    lemma_whole_sum(h0, p1);
    let h2 = h1 + p2;
    lemma_whole_sum(h1, p2);
    let h3 = h2 + p3;
    lemma_whole_sum(h2, p3);
    let h4 = h3 + p4;
    lemma_whole_sum(h3, p4);
    let h5 = h4 + p5;
    lemma_whole_sum(h4, p5);
    let h6 = h5 + p6;
    lemma_whole_sum(h5, p6);
    let h7 = h6 + p7;
    lemma_whole_sum(h6, p7);
    let s1 = "braidpipe_input_frames_total"@;
    let x1 = decimal(r.input_frames.value as nat);
    let y1 = decimal(o.input_frames.value as nat);
    lemma_sample_apart("braidpipe_input_frames_total"@, ""@, s1, x1, y1);
    let q1 = sample_text("braidpipe_input_frames_total"@, ""@, y1);
    lemma_apart_behind(h0, p1, q1, s1, x1, y1);
    let g1 = h0 + q1;
    lemma_apart_before(h1, g1, p2, s1, x1, y1);
    let g2 = g1 + p2;
    lemma_apart_before(h2, g2, p3, s1, x1, y1);
    let g3 = g2 + p3;
    lemma_apart_before(h3, g3, p4, s1, x1, y1);
    let g4 = g3 + p4;
    lemma_apart_before(h4, g4, p5, s1, x1, y1);
    let g5 = g4 + p5;
    lemma_apart_before(h5, g5, p6, s1, x1, y1);
    let g6 = g5 + p6;
    lemma_apart_before(h6, g6, p7, s1, x1, y1);
    let g7 = g6 + p7;
    let s4 = "braidpipe_pts_discontinuities_total"@;
    let x4 = decimal(r.pts_discontinuities.value as nat);
    let y4 = decimal(o.pts_discontinuities.value as nat);
    lemma_sample_apart("braidpipe_pts_discontinuities_total"@, ""@, s4, x4, y4);
    let q4 = sample_text("braidpipe_pts_discontinuities_total"@, ""@, y4);
    lemma_apart_behind(h3, p4, q4, s4, x4, y4);
    let g4 = h3 + q4;
    lemma_apart_before(h4, g4, p5, s4, x4, y4);
    let g5 = g4 + p5;
    lemma_apart_before(h5, g5, p6, s4, x4, y4);
    let g6 = g5 + p6;
    lemma_apart_before(h6, g6, p7, s4, x4, y4);
    let g7 = g6 + p7;
    let s5 = "braidpipe_input_width"@;
    let x5 = signed_decimal(r.input_width.value as int);
    let y5 = signed_decimal(o.input_width.value as int);
    lemma_gauge_apart("braidpipe_input_width"@, "Negotiated input width"@, x5, y5);
    let q5 = gauge_text("braidpipe_input_width"@, "Negotiated input width"@, y5);
    lemma_apart_behind(h4, p5, q5, s5, x5, y5);
    let g5 = h4 + q5;
    lemma_apart_before(h5, g5, p6, s5, x5, y5);
    let g6 = g5 + p6;
    lemma_apart_before(h6, g6, p7, s5, x5, y5);
    let g7 = g6 + p7;
    let s6 = "braidpipe_input_height"@;
    let x6 = signed_decimal(r.input_height.value as int);
    let y6 = signed_decimal(o.input_height.value as int);
    lemma_gauge_apart("braidpipe_input_height"@, "Negotiated input height"@, x6, y6);
    let q6 = gauge_text("braidpipe_input_height"@, "Negotiated input height"@, y6);
    lemma_apart_behind(h5, p6, q6, s6, x6, y6);
    let g6 = h5 + q6;
    lemma_apart_before(h6, g6, p7, s6, x6, y6);
    let g7 = g6 + p7;
    let s7 = "braidpipe_input_fps"@;
    let x7 = t.input_fps@;
    let y7 = u.input_fps@;
    lemma_gauge_apart("braidpipe_input_fps"@, "Negotiated input frame rate"@, x7, y7);
    let q7 = gauge_text("braidpipe_input_fps"@, "Negotiated input frame rate"@, y7);
    lemma_apart_behind(h6, p7, q7, s7, x7, y7);
    let g7 = h6 + q7;
}

#[verifier::rlimit(40)]
proof fn lemma_output_lines(r: Registry, o: Registry, t: FloatTexts, u: FloatTexts)
    ensures
        whole_lines(output_metrics(r, t)),
        one_line_apart(
            output_metrics(r, t),
            output_metrics(Registry { output_frames: o.output_frames, ..r }, t),
            "braidpipe_output_frames_total"@,
            decimal(r.output_frames.value as nat),
            decimal(o.output_frames.value as nat),
        ),
        one_line_apart(
            output_metrics(r, t),
            output_metrics(Registry { sink_bytes: o.sink_bytes, ..r }, t),
            "braidpipe_sink_bytes_total"@,
            decimal(r.sink_bytes.value as nat),
            decimal(o.sink_bytes.value as nat),
        ),
        one_line_apart(
            output_metrics(r, t),
            output_metrics(Registry { sink_buffers: o.sink_buffers, ..r }, t),
            "braidpipe_sink_buffers_total"@,
            decimal(r.sink_buffers.value as nat),
            decimal(o.sink_buffers.value as nat),
        ),
        one_line_apart(
            output_metrics(r, t),
            output_metrics(Registry { keyframes: o.keyframes, ..r }, t),
            "braidpipe_keyframes_total"@,
            decimal(r.keyframes.value as nat),
            decimal(o.keyframes.value as nat),
        ),
        one_line_apart(
            output_metrics(r, t),
            output_metrics(Registry { queue_overruns_pass: o.queue_overruns_pass, ..r }, t),
            "braidpipe_queue_drop_events_total{queue=\"q_pass\"}"@,
            decimal(r.queue_overruns_pass.value as nat),
            decimal(o.queue_overruns_pass.value as nat),
        ),
        one_line_apart(
            output_metrics(r, t),
            output_metrics(Registry { queue_overruns_ai: o.queue_overruns_ai, ..r }, t),
            "braidpipe_queue_drop_events_total{queue=\"q_ai\"}"@,
            decimal(r.queue_overruns_ai.value as nat),
            decimal(o.queue_overruns_ai.value as nat),
        ),
        one_line_apart(
            output_metrics(r, t),
            output_metrics(Registry { bus_errors: o.bus_errors, ..r }, t),
            "braidpipe_bus_messages_total{severity=\"error\"}"@,
            decimal(r.bus_errors.value as nat),
            decimal(o.bus_errors.value as nat),
        ),
        one_line_apart(
            output_metrics(r, t),
            output_metrics(Registry { bus_warnings: o.bus_warnings, ..r }, t),
            "braidpipe_bus_messages_total{severity=\"warning\"}"@,
            decimal(r.bus_warnings.value as nat),
            decimal(o.bus_warnings.value as nat),
        ),
{
    lemma_series_names();
    let p0 = counter_head(
        "braidpipe_output_frames_total"@,
        "Frames leaving the selector toward the sink"@,
    );
    let p1 = sample_text(
        "braidpipe_output_frames_total"@,
        ""@,
        decimal(r.output_frames.value as nat),
    );
    let p2 = counter_head("braidpipe_sink_bytes_total"@, "Bytes handed to the final sink"@);
    let p3 = sample_text("braidpipe_sink_bytes_total"@, ""@, decimal(r.sink_bytes.value as nat));
    let p4 = counter_head("braidpipe_sink_buffers_total"@, "Buffers handed to the final sink"@);
    let p5 = sample_text(
        "braidpipe_sink_buffers_total"@,
        ""@,
        decimal(r.sink_buffers.value as nat),
    );
    let p6 = counter_head("braidpipe_keyframes_total"@, "Keyframes leaving the video encoder"@);
    let p7 = sample_text("braidpipe_keyframes_total"@, ""@, decimal(r.keyframes.value as nat));
    let p8 = counter_head(
        "braidpipe_queue_drop_events_total"@,
        "Queue overrun events, per branch queue"@,
    );
    let p9 = sample_text(
        "braidpipe_queue_drop_events_total"@,
        "{queue=\"q_pass\"}"@,
        decimal(r.queue_overruns_pass.value as nat),
    );
    let p10 = sample_text(
        "braidpipe_queue_drop_events_total"@,
        "{queue=\"q_ai\"}"@,
        decimal(r.queue_overruns_ai.value as nat),
    );
    let p11 = counter_head("braidpipe_bus_messages_total"@, "GStreamer bus messages, by severity"@);
    let p12 = sample_text(
        "braidpipe_bus_messages_total"@,
        "{severity=\"error\"}"@,
        decimal(r.bus_errors.value as nat),
    );
    let p13 = sample_text(
        "braidpipe_bus_messages_total"@,
        "{severity=\"warning\"}"@,
        decimal(r.bus_warnings.value as nat),
    );
    lemma_whole_parts();
    let h0 = p0;
    let h1 = h0 + p1;
    lemma_whole_sum(h0, p1);
    let h2 = h1 + p2;
    lemma_whole_sum(h1, p2);
    let h3 = h2 + p3;
    lemma_whole_sum(h2, p3);
    let h4 = h3 + p4;
    lemma_whole_sum(h3, p4);
    let h5 = h4 + p5;
    lemma_whole_sum(h4, p5);
    let h6 = h5 + p6;
    lemma_whole_sum(h5, p6);
    let h7 = h6 + p7;
    lemma_whole_sum(h6, p7);
    let h8 = h7 + p8;
    lemma_whole_sum(h7, p8);
    let h9 = h8 + p9;
    lemma_whole_sum(h8, p9);
    let h10 = h9 + p10;
    lemma_whole_sum(h9, p10);
    let h11 = h10 + p11;
    lemma_whole_sum(h10, p11);
    let h12 = h11 + p12;
    lemma_whole_sum(h11, p12);
    let h13 = h12 + p13;
    lemma_whole_sum(h12, p13);
    let s1 = "braidpipe_output_frames_total"@;
    let x1 = decimal(r.output_frames.value as nat);
    let y1 = decimal(o.output_frames.value as nat);
    lemma_sample_apart("braidpipe_output_frames_total"@, ""@, s1, x1, y1);
    let q1 = sample_text("braidpipe_output_frames_total"@, ""@, y1);
    lemma_apart_behind(h0, p1, q1, s1, x1, y1);
    let g1 = h0 + q1;
    lemma_apart_before(h1, g1, p2, s1, x1, y1);
    let g2 = g1 + p2;
    lemma_apart_before(h2, g2, p3, s1, x1, y1);
    let g3 = g2 + p3;
    lemma_apart_before(h3, g3, p4, s1, x1, y1);
    let g4 = g3 + p4;
    lemma_apart_before(h4, g4, p5, s1, x1, y1);
    let g5 = g4 + p5;
    lemma_apart_before(h5, g5, p6, s1, x1, y1);
    let g6 = g5 + p6;
    lemma_apart_before(h6, g6, p7, s1, x1, y1);
    let g7 = g6 + p7;
    lemma_apart_before(h7, g7, p8, s1, x1, y1);
    let g8 = g7 + p8;
    lemma_apart_before(h8, g8, p9, s1, x1, y1);
    let g9 = g8 + p9;
    lemma_apart_before(h9, g9, p10, s1, x1, y1);
    let g10 = g9 + p10;
    lemma_apart_before(h10, g10, p11, s1, x1, y1);
    let g11 = g10 + p11;
    lemma_apart_before(h11, g11, p12, s1, x1, y1);
    let g12 = g11 + p12;
    lemma_apart_before(h12, g12, p13, s1, x1, y1);
    let g13 = g12 + p13;
    let s3 = "braidpipe_sink_bytes_total"@;
    let x3 = decimal(r.sink_bytes.value as nat);
    let y3 = decimal(o.sink_bytes.value as nat);
    lemma_sample_apart("braidpipe_sink_bytes_total"@, ""@, s3, x3, y3);
    let q3 = sample_text("braidpipe_sink_bytes_total"@, ""@, y3);
    lemma_apart_behind(h2, p3, q3, s3, x3, y3);
    let g3 = h2 + q3;
    lemma_apart_before(h3, g3, p4, s3, x3, y3);
    let g4 = g3 + p4;
    lemma_apart_before(h4, g4, p5, s3, x3, y3);
    let g5 = g4 + p5;
    lemma_apart_before(h5, g5, p6, s3, x3, y3);
    let g6 = g5 + p6;
    lemma_apart_before(h6, g6, p7, s3, x3, y3);
    let g7 = g6 + p7;
    lemma_apart_before(h7, g7, p8, s3, x3, y3);
    let g8 = g7 + p8;
    lemma_apart_before(h8, g8, p9, s3, x3, y3);
    let g9 = g8 + p9;
    lemma_apart_before(h9, g9, p10, s3, x3, y3);
    let g10 = g9 + p10;
    lemma_apart_before(h10, g10, p11, s3, x3, y3);
    let g11 = g10 + p11;
    lemma_apart_before(h11, g11, p12, s3, x3, y3);
    let g12 = g11 + p12;
    lemma_apart_before(h12, g12, p13, s3, x3, y3);
    let g13 = g12 + p13;
    let s5 = "braidpipe_sink_buffers_total"@;
    let x5 = decimal(r.sink_buffers.value as nat);
    let y5 = decimal(o.sink_buffers.value as nat);
    lemma_sample_apart("braidpipe_sink_buffers_total"@, ""@, s5, x5, y5);
    let q5 = sample_text("braidpipe_sink_buffers_total"@, ""@, y5);
    lemma_apart_behind(h4, p5, q5, s5, x5, y5);
    let g5 = h4 + q5;
    lemma_apart_before(h5, g5, p6, s5, x5, y5);
    let g6 = g5 + p6;
    lemma_apart_before(h6, g6, p7, s5, x5, y5);
    let g7 = g6 + p7;
    lemma_apart_before(h7, g7, p8, s5, x5, y5);
    let g8 = g7 + p8;
    lemma_apart_before(h8, g8, p9, s5, x5, y5);
    let g9 = g8 + p9;
    lemma_apart_before(h9, g9, p10, s5, x5, y5);
    let g10 = g9 + p10;
    lemma_apart_before(h10, g10, p11, s5, x5, y5);
    let g11 = g10 + p11;
    lemma_apart_before(h11, g11, p12, s5, x5, y5);
    let g12 = g11 + p12;
    lemma_apart_before(h12, g12, p13, s5, x5, y5);
    let g13 = g12 + p13;
    let s7 = "braidpipe_keyframes_total"@;
    let x7 = decimal(r.keyframes.value as nat);
    let y7 = decimal(o.keyframes.value as nat);
    lemma_sample_apart("braidpipe_keyframes_total"@, ""@, s7, x7, y7);
    let q7 = sample_text("braidpipe_keyframes_total"@, ""@, y7);
    lemma_apart_behind(h6, p7, q7, s7, x7, y7);
    let g7 = h6 + q7;
    lemma_apart_before(h7, g7, p8, s7, x7, y7);
    let g8 = g7 + p8;
    lemma_apart_before(h8, g8, p9, s7, x7, y7);
    let g9 = g8 + p9;
    lemma_apart_before(h9, g9, p10, s7, x7, y7);
    let g10 = g9 + p10;
    lemma_apart_before(h10, g10, p11, s7, x7, y7);
    let g11 = g10 + p11;
    lemma_apart_before(h11, g11, p12, s7, x7, y7);
    let g12 = g11 + p12;
    lemma_apart_before(h12, g12, p13, s7, x7, y7);
    let g13 = g12 + p13;
    let s9 = "braidpipe_queue_drop_events_total{queue=\"q_pass\"}"@;
    let x9 = decimal(r.queue_overruns_pass.value as nat);
    let y9 = decimal(o.queue_overruns_pass.value as nat);
    lemma_sample_apart("braidpipe_queue_drop_events_total"@, "{queue=\"q_pass\"}"@, s9, x9, y9);
    let q9 = sample_text("braidpipe_queue_drop_events_total"@, "{queue=\"q_pass\"}"@, y9);
    lemma_apart_behind(h8, p9, q9, s9, x9, y9);
    let g9 = h8 + q9;
    lemma_apart_before(h9, g9, p10, s9, x9, y9);
    let g10 = g9 + p10;
    lemma_apart_before(h10, g10, p11, s9, x9, y9);
    let g11 = g10 + p11;
    lemma_apart_before(h11, g11, p12, s9, x9, y9);
    let g12 = g11 + p12;
    lemma_apart_before(h12, g12, p13, s9, x9, y9);
    let g13 = g12 + p13;
    let s10 = "braidpipe_queue_drop_events_total{queue=\"q_ai\"}"@;
    let x10 = decimal(r.queue_overruns_ai.value as nat);
    let y10 = decimal(o.queue_overruns_ai.value as nat);
    lemma_sample_apart("braidpipe_queue_drop_events_total"@, "{queue=\"q_ai\"}"@, s10, x10, y10);
    let q10 = sample_text("braidpipe_queue_drop_events_total"@, "{queue=\"q_ai\"}"@, y10);
    lemma_apart_behind(h9, p10, q10, s10, x10, y10);
    let g10 = h9 + q10;
    lemma_apart_before(h10, g10, p11, s10, x10, y10);
    let g11 = g10 + p11;
    lemma_apart_before(h11, g11, p12, s10, x10, y10);
    let g12 = g11 + p12;
    lemma_apart_before(h12, g12, p13, s10, x10, y10);
    let g13 = g12 + p13;
    let s12 = "braidpipe_bus_messages_total{severity=\"error\"}"@;
    let x12 = decimal(r.bus_errors.value as nat);
    let y12 = decimal(o.bus_errors.value as nat);
    lemma_sample_apart("braidpipe_bus_messages_total"@, "{severity=\"error\"}"@, s12, x12, y12);
    let q12 = sample_text("braidpipe_bus_messages_total"@, "{severity=\"error\"}"@, y12);
    lemma_apart_behind(h11, p12, q12, s12, x12, y12);
    let g12 = h11 + q12;
    lemma_apart_before(h12, g12, p13, s12, x12, y12);
    let g13 = g12 + p13;
    let s13 = "braidpipe_bus_messages_total{severity=\"warning\"}"@;
    let x13 = decimal(r.bus_warnings.value as nat);
    let y13 = decimal(o.bus_warnings.value as nat);
    lemma_sample_apart("braidpipe_bus_messages_total"@, "{severity=\"warning\"}"@, s13, x13, y13);
    let q13 = sample_text("braidpipe_bus_messages_total"@, "{severity=\"warning\"}"@, y13);
    lemma_apart_behind(h12, p13, q13, s13, x13, y13);
    let g13 = h12 + q13;
}

/// A page is one line apart from another if its lines on the daemon and its frames are, and the rest
/// is the same.
proof fn lemma_page_apart_frame(
    r: Registry,
    t: FloatTexts,
    s: Registry,
    u: FloatTexts,
    series: Seq<char>,
    x: Seq<char>,
    y: Seq<char>,
)
    requires
        one_line_apart(frame_metrics(r, t), frame_metrics(s, u), series, x, y),
        relay_metrics(r, t) == relay_metrics(s, u),
        failover_metrics(r, t) == failover_metrics(s, u),
        worker_metrics(r, t) == worker_metrics(s, u),
        input_metrics(r, t) == input_metrics(s, u),
        output_metrics(r, t) == output_metrics(s, u),
        skew_metrics(r, t) == skew_metrics(s, u),
    ensures
        one_line_apart(registry_text(r, t), registry_text(s, u), series, x, y),
{
    let h0 = frame_metrics(r, t);
    let h1 = h0 + relay_metrics(r, t);
    let h2 = h1 + failover_metrics(r, t);
    let h3 = h2 + worker_metrics(r, t);
    let h4 = h3 + input_metrics(r, t);
    let h5 = h4 + output_metrics(r, t);
    let h6 = h5 + skew_metrics(r, t);
    let g0 = frame_metrics(s, u);
    lemma_apart_before(h0, g0, relay_metrics(r, t), series, x, y);
    let g1 = g0 + relay_metrics(r, t);
    lemma_apart_before(h1, g1, failover_metrics(r, t), series, x, y);
    let g2 = g1 + failover_metrics(r, t);
    lemma_apart_before(h2, g2, worker_metrics(r, t), series, x, y);
    let g3 = g2 + worker_metrics(r, t);
    lemma_apart_before(h3, g3, input_metrics(r, t), series, x, y);
    let g4 = g3 + input_metrics(r, t);
    lemma_apart_before(h4, g4, output_metrics(r, t), series, x, y);
    let g5 = g4 + output_metrics(r, t);
    lemma_apart_before(h5, g5, skew_metrics(r, t), series, x, y);
    let g6 = g5 + skew_metrics(r, t);
}

/// A page is one line apart from another if its lines on the relay are, and the rest
/// is the same.
proof fn lemma_page_apart_relay(
    r: Registry,
    t: FloatTexts,
    s: Registry,
    u: FloatTexts,
    series: Seq<char>,
    x: Seq<char>,
    y: Seq<char>,
)
    requires
        one_line_apart(relay_metrics(r, t), relay_metrics(s, u), series, x, y),
        frame_metrics(r, t) == frame_metrics(s, u),
        failover_metrics(r, t) == failover_metrics(s, u),
        worker_metrics(r, t) == worker_metrics(s, u),
        input_metrics(r, t) == input_metrics(s, u),
        output_metrics(r, t) == output_metrics(s, u),
        skew_metrics(r, t) == skew_metrics(s, u),
    ensures
        one_line_apart(registry_text(r, t), registry_text(s, u), series, x, y),
{
    lemma_frame_lines(r, r, t, t);
    let h0 = frame_metrics(r, t);
    let h1 = h0 + relay_metrics(r, t);
    let h2 = h1 + failover_metrics(r, t);
    let h3 = h2 + worker_metrics(r, t);
    let h4 = h3 + input_metrics(r, t);
    let h5 = h4 + output_metrics(r, t);
    let h6 = h5 + skew_metrics(r, t);
    lemma_apart_behind(h0, relay_metrics(r, t), relay_metrics(s, u), series, x, y);
    let g1 = h0 + relay_metrics(s, u);
    lemma_apart_before(h1, g1, failover_metrics(r, t), series, x, y);
    let g2 = g1 + failover_metrics(r, t);
    lemma_apart_before(h2, g2, worker_metrics(r, t), series, x, y);
    let g3 = g2 + worker_metrics(r, t);
    lemma_apart_before(h3, g3, input_metrics(r, t), series, x, y);
    let g4 = g3 + input_metrics(r, t);
    lemma_apart_before(h4, g4, output_metrics(r, t), series, x, y);
    let g5 = g4 + output_metrics(r, t);
    lemma_apart_before(h5, g5, skew_metrics(r, t), series, x, y);
    let g6 = g5 + skew_metrics(r, t);
}

/// A page is one line apart from another if its lines on failover are, and the rest
/// is the same.
proof fn lemma_page_apart_failover(
    r: Registry,
    t: FloatTexts,
    s: Registry,
    u: FloatTexts,
    series: Seq<char>,
    x: Seq<char>,
    y: Seq<char>,
)
    requires
        one_line_apart(failover_metrics(r, t), failover_metrics(s, u), series, x, y),
        frame_metrics(r, t) == frame_metrics(s, u),
        relay_metrics(r, t) == relay_metrics(s, u),
        worker_metrics(r, t) == worker_metrics(s, u),
        input_metrics(r, t) == input_metrics(s, u),
        output_metrics(r, t) == output_metrics(s, u),
        skew_metrics(r, t) == skew_metrics(s, u),
    ensures
        one_line_apart(registry_text(r, t), registry_text(s, u), series, x, y),
{
    lemma_frame_lines(r, r, t, t);
    lemma_relay_lines(r, r, t, t);
    let h0 = frame_metrics(r, t);
    let h1 = h0 + relay_metrics(r, t);
    lemma_whole_sum(h0, relay_metrics(r, t));
    let h2 = h1 + failover_metrics(r, t);
    let h3 = h2 + worker_metrics(r, t);
    let h4 = h3 + input_metrics(r, t);
    let h5 = h4 + output_metrics(r, t);
    let h6 = h5 + skew_metrics(r, t);
    lemma_apart_behind(h1, failover_metrics(r, t), failover_metrics(s, u), series, x, y);
    let g2 = h1 + failover_metrics(s, u);
    lemma_apart_before(h2, g2, worker_metrics(r, t), series, x, y);
    let g3 = g2 + worker_metrics(r, t);
    lemma_apart_before(h3, g3, input_metrics(r, t), series, x, y);
    let g4 = g3 + input_metrics(r, t);
    lemma_apart_before(h4, g4, output_metrics(r, t), series, x, y);
    let g5 = g4 + output_metrics(r, t);
    lemma_apart_before(h5, g5, skew_metrics(r, t), series, x, y);
    let g6 = g5 + skew_metrics(r, t);
}

/// A page is one line apart from another if its lines on the worker process are, and the rest
/// is the same.
proof fn lemma_page_apart_worker(
    r: Registry,
    t: FloatTexts,
    s: Registry,
    u: FloatTexts,
    series: Seq<char>,
    x: Seq<char>,
    y: Seq<char>,
)
    requires
        one_line_apart(worker_metrics(r, t), worker_metrics(s, u), series, x, y),
        frame_metrics(r, t) == frame_metrics(s, u),
        relay_metrics(r, t) == relay_metrics(s, u),
        failover_metrics(r, t) == failover_metrics(s, u),
        input_metrics(r, t) == input_metrics(s, u),
        output_metrics(r, t) == output_metrics(s, u),
        skew_metrics(r, t) == skew_metrics(s, u),
    ensures
        one_line_apart(registry_text(r, t), registry_text(s, u), series, x, y),
{
    lemma_frame_lines(r, r, t, t);
    lemma_relay_lines(r, r, t, t);
    lemma_failover_lines(r, r, t, t);
    let h0 = frame_metrics(r, t);
    let h1 = h0 + relay_metrics(r, t);
    lemma_whole_sum(h0, relay_metrics(r, t));
    let h2 = h1 + failover_metrics(r, t);
    lemma_whole_sum(h1, failover_metrics(r, t));
    let h3 = h2 + worker_metrics(r, t);
    let h4 = h3 + input_metrics(r, t);
    let h5 = h4 + output_metrics(r, t);
    let h6 = h5 + skew_metrics(r, t);
    lemma_apart_behind(h2, worker_metrics(r, t), worker_metrics(s, u), series, x, y);
    let g3 = h2 + worker_metrics(s, u);
    lemma_apart_before(h3, g3, input_metrics(r, t), series, x, y);
    let g4 = g3 + input_metrics(r, t);
    lemma_apart_before(h4, g4, output_metrics(r, t), series, x, y);
    let g5 = g4 + output_metrics(r, t);
    lemma_apart_before(h5, g5, skew_metrics(r, t), series, x, y);
    let g6 = g5 + skew_metrics(r, t);
}

/// A page is one line apart from another if its lines on the input are, and the rest
/// is the same.
proof fn lemma_page_apart_input(
    r: Registry,
    t: FloatTexts,
    s: Registry,
    u: FloatTexts,
    series: Seq<char>,
    x: Seq<char>,
    y: Seq<char>,
)
    requires
        one_line_apart(input_metrics(r, t), input_metrics(s, u), series, x, y),
        frame_metrics(r, t) == frame_metrics(s, u),
        relay_metrics(r, t) == relay_metrics(s, u),
        failover_metrics(r, t) == failover_metrics(s, u),
        worker_metrics(r, t) == worker_metrics(s, u),
        output_metrics(r, t) == output_metrics(s, u),
        skew_metrics(r, t) == skew_metrics(s, u),
    ensures
        one_line_apart(registry_text(r, t), registry_text(s, u), series, x, y),
{
    lemma_frame_lines(r, r, t, t);
    lemma_relay_lines(r, r, t, t);
    lemma_failover_lines(r, r, t, t);
    lemma_worker_lines(r, r, t, t);
    let h0 = frame_metrics(r, t);
    let h1 = h0 + relay_metrics(r, t);
    lemma_whole_sum(h0, relay_metrics(r, t));
    let h2 = h1 + failover_metrics(r, t);
    lemma_whole_sum(h1, failover_metrics(r, t));
    let h3 = h2 + worker_metrics(r, t);
    lemma_whole_sum(h2, worker_metrics(r, t));
    let h4 = h3 + input_metrics(r, t);
    let h5 = h4 + output_metrics(r, t);
    let h6 = h5 + skew_metrics(r, t);
    lemma_apart_behind(h3, input_metrics(r, t), input_metrics(s, u), series, x, y);
    let g4 = h3 + input_metrics(s, u);
    lemma_apart_before(h4, g4, output_metrics(r, t), series, x, y);
    let g5 = g4 + output_metrics(r, t);
    lemma_apart_before(h5, g5, skew_metrics(r, t), series, x, y);
    let g6 = g5 + skew_metrics(r, t);
}

/// A page is one line apart from another if its lines on the output are, and the rest
/// is the same.
proof fn lemma_page_apart_output(
    r: Registry,
    t: FloatTexts,
    s: Registry,
    u: FloatTexts,
    series: Seq<char>,
    x: Seq<char>,
    y: Seq<char>,
)
    requires
        one_line_apart(output_metrics(r, t), output_metrics(s, u), series, x, y),
        frame_metrics(r, t) == frame_metrics(s, u),
        relay_metrics(r, t) == relay_metrics(s, u),
        failover_metrics(r, t) == failover_metrics(s, u),
        worker_metrics(r, t) == worker_metrics(s, u),
        input_metrics(r, t) == input_metrics(s, u),
        skew_metrics(r, t) == skew_metrics(s, u),
    ensures
        one_line_apart(registry_text(r, t), registry_text(s, u), series, x, y),
{
    lemma_frame_lines(r, r, t, t);
    lemma_relay_lines(r, r, t, t);
    lemma_failover_lines(r, r, t, t);
    lemma_worker_lines(r, r, t, t);
    lemma_input_lines(r, r, t, t);
    let h0 = frame_metrics(r, t);
    let h1 = h0 + relay_metrics(r, t);
    lemma_whole_sum(h0, relay_metrics(r, t));
    let h2 = h1 + failover_metrics(r, t);
    lemma_whole_sum(h1, failover_metrics(r, t));
    let h3 = h2 + worker_metrics(r, t);
    lemma_whole_sum(h2, worker_metrics(r, t));
    let h4 = h3 + input_metrics(r, t);
    lemma_whole_sum(h3, input_metrics(r, t));
    let h5 = h4 + output_metrics(r, t);
    let h6 = h5 + skew_metrics(r, t);
    lemma_apart_behind(h4, output_metrics(r, t), output_metrics(s, u), series, x, y);
    let g5 = h4 + output_metrics(s, u);
    lemma_apart_before(h5, g5, skew_metrics(r, t), series, x, y);
    let g6 = g5 + skew_metrics(r, t);
}

/// Each group of the page depends on its own part of the registry only.
proof fn lemma_same_groups(r: Registry, s: Registry, t: FloatTexts, u: FloatTexts)
    ensures
        r.up == s.up
            && r.frames_ai == s.frames_ai
            && r.frames_passthrough == s.frames_passthrough
            && r.roundtrip_seconds == s.roundtrip_seconds
            && t.roundtrip_sum == u.roundtrip_sum
            && r.worker_processing_seconds == s.worker_processing_seconds
            && t.worker_processing_sum == u.worker_processing_sum
            ==> frame_metrics(r, t) == frame_metrics(s, u),
        t.relay_deadline == u.relay_deadline
            && t.last_ai_frame == u.last_ai_frame
            && r.stale_acks == s.stale_acks
            && r.relay_channel_drops == s.relay_channel_drops
            && r.shm_full == s.shm_full
            ==> relay_metrics(r, t) == relay_metrics(s, u),
        r.failure_streak == s.failure_streak
            && r.worker_healthy == s.worker_healthy
            && r.active_branch == s.active_branch
            && r.branch_switches_to_ai == s.branch_switches_to_ai
            && r.branch_switches_to_passthrough == s.branch_switches_to_passthrough
            && r.branch_seconds_ai == s.branch_seconds_ai
            && t.branch_seconds_ai == u.branch_seconds_ai
            && r.branch_seconds_passthrough == s.branch_seconds_passthrough
            && t.branch_seconds_passthrough == u.branch_seconds_passthrough
            ==> failover_metrics(r, t) == failover_metrics(s, u),
        r.worker_up == s.worker_up
            && r.worker_exits == s.worker_exits
            && r.worker_last_exit_code == s.worker_last_exit_code
            && t.worker_cpu == u.worker_cpu
            && r.worker_rss_bytes == s.worker_rss_bytes
            ==> worker_metrics(r, t) == worker_metrics(s, u),
        r.input_frames == s.input_frames
            && r.input_interval_seconds == s.input_interval_seconds
            && t.input_interval_sum == u.input_interval_sum
            && r.pts_discontinuities == s.pts_discontinuities
            && r.input_width == s.input_width
            && r.input_height == s.input_height
            && t.input_fps == u.input_fps
            ==> input_metrics(r, t) == input_metrics(s, u),
        r.output_frames == s.output_frames
            && r.sink_bytes == s.sink_bytes
            && r.sink_buffers == s.sink_buffers
            && r.keyframes == s.keyframes
            && r.queue_overruns_pass == s.queue_overruns_pass
            && r.queue_overruns_ai == s.queue_overruns_ai
            && r.bus_errors == s.bus_errors
            && r.bus_warnings == s.bus_warnings
            ==> output_metrics(r, t) == output_metrics(s, u),
        r.last_video_pts_us == s.last_video_pts_us
            && r.last_audio_pts_us == s.last_audio_pts_us
            && t.av_skew == u.av_skew
            ==> skew_metrics(r, t) == skew_metrics(s, u),
{
}


/// Each series on the daemon and its frames has its own line on the page, and nothing else on the
/// page depends on its value: pages that differ in that value alone differ in that line alone.
#[verifier::rlimit(60)]
pub proof fn law_frame_series(r: Registry, o: Registry, t: FloatTexts, u: FloatTexts)
    ensures
        one_line_apart(
            registry_text(r, t),
            registry_text(Registry { up: o.up, ..r }, t),
            "braidpipe_up"@,
            signed_decimal(r.up.value as int),
            signed_decimal(o.up.value as int),
        ),
        one_line_apart(
            registry_text(r, t),
            registry_text(Registry { frames_ai: o.frames_ai, ..r }, t),
            "braidpipe_frames_total{outcome=\"ai\"}"@,
            decimal(r.frames_ai.value as nat),
            decimal(o.frames_ai.value as nat),
        ),
        one_line_apart(
            registry_text(r, t),
            registry_text(Registry { frames_passthrough: o.frames_passthrough, ..r }, t),
            "braidpipe_frames_total{outcome=\"passthrough\"}"@,
            decimal(r.frames_passthrough.value as nat),
            decimal(o.frames_passthrough.value as nat),
        ),
{
    lemma_frame_lines(r, o, t, u);
    let s = Registry { up: o.up, ..r };
    let v = t;
    lemma_same_groups(r, s, t, v);
    lemma_page_apart_frame(
        r,
        t,
        s,
        v,
        "braidpipe_up"@,
        signed_decimal(r.up.value as int),
        signed_decimal(o.up.value as int),
    );
    let s = Registry { frames_ai: o.frames_ai, ..r };
    let v = t;
    lemma_same_groups(r, s, t, v);
    lemma_page_apart_frame(
        r,
        t,
        s,
        v,
        "braidpipe_frames_total{outcome=\"ai\"}"@,
        decimal(r.frames_ai.value as nat),
        decimal(o.frames_ai.value as nat),
    );
    let s = Registry { frames_passthrough: o.frames_passthrough, ..r };
    let v = t;
    lemma_same_groups(r, s, t, v);
    lemma_page_apart_frame(
        r,
        t,
        s,
        v,
        "braidpipe_frames_total{outcome=\"passthrough\"}"@,
        decimal(r.frames_passthrough.value as nat),
        decimal(o.frames_passthrough.value as nat),
    );
}

/// Each series on the relay has its own line on the page, and nothing else on the
/// page depends on its value: pages that differ in that value alone differ in that line alone.
#[verifier::rlimit(60)]
pub proof fn law_relay_series(r: Registry, o: Registry, t: FloatTexts, u: FloatTexts)
    ensures
        one_line_apart(
            registry_text(r, t),
            registry_text(r, FloatTexts { relay_deadline: u.relay_deadline, ..t }),
            "braidpipe_relay_deadline_seconds"@,
            t.relay_deadline@,
            u.relay_deadline@,
        ),
        one_line_apart(
            registry_text(r, t),
            registry_text(r, FloatTexts { last_ai_frame: u.last_ai_frame, ..t }),
            "braidpipe_last_ai_frame_timestamp_seconds"@,
            t.last_ai_frame@,
            u.last_ai_frame@,
        ),
        one_line_apart(
            registry_text(r, t),
            registry_text(Registry { stale_acks: o.stale_acks, ..r }, t),
            "braidpipe_stale_acks_total"@,
            decimal(r.stale_acks.value as nat),
            decimal(o.stale_acks.value as nat),
        ),
        one_line_apart(
            registry_text(r, t),
            registry_text(Registry { relay_channel_drops: o.relay_channel_drops, ..r }, t),
            "braidpipe_relay_channel_drops_total"@,
            decimal(r.relay_channel_drops.value as nat),
            decimal(o.relay_channel_drops.value as nat),
        ),
        one_line_apart(
            registry_text(r, t),
            registry_text(Registry { shm_full: o.shm_full, ..r }, t),
            "braidpipe_shm_full_total"@,
            decimal(r.shm_full.value as nat),
            decimal(o.shm_full.value as nat),
        ),
{
    lemma_relay_lines(r, o, t, u);
    let s = r;
    let v = FloatTexts { relay_deadline: u.relay_deadline, ..t };
    lemma_same_groups(r, s, t, v);
    lemma_page_apart_relay(
        r,
        t,
        s,
        v,
        "braidpipe_relay_deadline_seconds"@,
        t.relay_deadline@,
        u.relay_deadline@,
    );
    let s = r;
    let v = FloatTexts { last_ai_frame: u.last_ai_frame, ..t };
    lemma_same_groups(r, s, t, v);
    lemma_page_apart_relay(
        r,
        t,
        s,
        v,
        "braidpipe_last_ai_frame_timestamp_seconds"@,
        t.last_ai_frame@,
        u.last_ai_frame@,
    );
    let s = Registry { stale_acks: o.stale_acks, ..r };
    let v = t;
    lemma_same_groups(r, s, t, v);
    lemma_page_apart_relay(
        r,
        t,
        s,
        v,
        "braidpipe_stale_acks_total"@,
        decimal(r.stale_acks.value as nat),
        decimal(o.stale_acks.value as nat),
    );
    let s = Registry { relay_channel_drops: o.relay_channel_drops, ..r };
    let v = t;
    lemma_same_groups(r, s, t, v);
    lemma_page_apart_relay(
        r,
        t,
        s,
        v,
        "braidpipe_relay_channel_drops_total"@,
        decimal(r.relay_channel_drops.value as nat),
        decimal(o.relay_channel_drops.value as nat),
    );
    let s = Registry { shm_full: o.shm_full, ..r };
    let v = t;
    lemma_same_groups(r, s, t, v);
    lemma_page_apart_relay(
        r,
        t,
        s,
        v,
        "braidpipe_shm_full_total"@,
        decimal(r.shm_full.value as nat),
        decimal(o.shm_full.value as nat),
    );
}

/// Each series on failover has its own line on the page, and nothing else on the
/// page depends on its value: pages that differ in that value alone differ in that line alone.
#[verifier::rlimit(60)]
pub proof fn law_failover_series(r: Registry, o: Registry, t: FloatTexts, u: FloatTexts)
    ensures
        one_line_apart(
            registry_text(r, t),
            registry_text(Registry { failure_streak: o.failure_streak, ..r }, t),
            "braidpipe_failure_streak"@,
            signed_decimal(r.failure_streak.value as int),
            signed_decimal(o.failure_streak.value as int),
        ),
        one_line_apart(
            registry_text(r, t),
            registry_text(Registry { worker_healthy: o.worker_healthy, ..r }, t),
            "braidpipe_worker_healthy"@,
            signed_decimal(r.worker_healthy.value as int),
            signed_decimal(o.worker_healthy.value as int),
        ),
        one_line_apart(
            registry_text(r, t),
            registry_text(Registry { active_branch: o.active_branch, ..r }, t),
            "braidpipe_active_branch"@,
            signed_decimal(r.active_branch.value as int),
            signed_decimal(o.active_branch.value as int),
        ),
        one_line_apart(
            registry_text(r, t),
            registry_text(Registry { branch_switches_to_ai: o.branch_switches_to_ai, ..r }, t),
            "braidpipe_branch_switches_total{direction=\"to_ai\"}"@,
            decimal(r.branch_switches_to_ai.value as nat),
            decimal(o.branch_switches_to_ai.value as nat),
        ),
        one_line_apart(
            registry_text(r, t),
            registry_text(
                Registry { branch_switches_to_passthrough: o.branch_switches_to_passthrough, ..r },
                t,
            ),
            "braidpipe_branch_switches_total{direction=\"to_passthrough\"}"@,
            decimal(r.branch_switches_to_passthrough.value as nat),
            decimal(o.branch_switches_to_passthrough.value as nat),
        ),
        one_line_apart(
            registry_text(r, t),
            registry_text(Registry { branch_seconds_ai: o.branch_seconds_ai, ..r }, t),
            "braidpipe_branch_seconds_total{branch=\"ai\"}"@,
            seconds_or(r.branch_seconds_ai.micros, t.branch_seconds_ai@),
            seconds_or(o.branch_seconds_ai.micros, t.branch_seconds_ai@),
        ),
        one_line_apart(
            registry_text(r, t),
            registry_text(
                Registry { branch_seconds_passthrough: o.branch_seconds_passthrough, ..r },
                t,
            ),
            "braidpipe_branch_seconds_total{branch=\"passthrough\"}"@,
            seconds_or(r.branch_seconds_passthrough.micros, t.branch_seconds_passthrough@),
            seconds_or(o.branch_seconds_passthrough.micros, t.branch_seconds_passthrough@),
        ),
{
    lemma_failover_lines(r, o, t, u);
    let s = Registry { failure_streak: o.failure_streak, ..r };
    let v = t;
    lemma_same_groups(r, s, t, v);
    lemma_page_apart_failover(
        r,
        t,
        s,
        v,
        "braidpipe_failure_streak"@,
        signed_decimal(r.failure_streak.value as int),
        signed_decimal(o.failure_streak.value as int),
    );
    let s = Registry { worker_healthy: o.worker_healthy, ..r };
    let v = t;
    lemma_same_groups(r, s, t, v);
    lemma_page_apart_failover(
        r,
        t,
        s,
        v,
        "braidpipe_worker_healthy"@,
        signed_decimal(r.worker_healthy.value as int),
        signed_decimal(o.worker_healthy.value as int),
    );
    let s = Registry { active_branch: o.active_branch, ..r };
    let v = t;
    lemma_same_groups(r, s, t, v);
    lemma_page_apart_failover(
        r,
        t,
        s,
        v,
        "braidpipe_active_branch"@,
        signed_decimal(r.active_branch.value as int),
        signed_decimal(o.active_branch.value as int),
    );
    let s = Registry { branch_switches_to_ai: o.branch_switches_to_ai, ..r };
    let v = t;
    lemma_same_groups(r, s, t, v);
    lemma_page_apart_failover(
        r,
        t,
        s,
        v,
        "braidpipe_branch_switches_total{direction=\"to_ai\"}"@,
        decimal(r.branch_switches_to_ai.value as nat),
        decimal(o.branch_switches_to_ai.value as nat),
    );
    let s = Registry { branch_switches_to_passthrough: o.branch_switches_to_passthrough, ..r };
    let v = t;
    lemma_same_groups(r, s, t, v);
    lemma_page_apart_failover(
        r,
        t,
        s,
        v,
        "braidpipe_branch_switches_total{direction=\"to_passthrough\"}"@,
        decimal(r.branch_switches_to_passthrough.value as nat),
        decimal(o.branch_switches_to_passthrough.value as nat),
    );
    let s = Registry { branch_seconds_ai: o.branch_seconds_ai, ..r };
    let v = t;
    lemma_same_groups(r, s, t, v);
    lemma_page_apart_failover(
        r,
        t,
        s,
        v,
        "braidpipe_branch_seconds_total{branch=\"ai\"}"@,
        seconds_or(r.branch_seconds_ai.micros, t.branch_seconds_ai@),
        seconds_or(o.branch_seconds_ai.micros, t.branch_seconds_ai@),
    );
    let s = Registry { branch_seconds_passthrough: o.branch_seconds_passthrough, ..r };
    let v = t;
    lemma_same_groups(r, s, t, v);
    lemma_page_apart_failover(
        r,
        t,
        s,
        v,
        "braidpipe_branch_seconds_total{branch=\"passthrough\"}"@,
        seconds_or(r.branch_seconds_passthrough.micros, t.branch_seconds_passthrough@),
        seconds_or(o.branch_seconds_passthrough.micros, t.branch_seconds_passthrough@),
    );
}

/// Each series on the worker process has its own line on the page, and nothing else on the
/// page depends on its value: pages that differ in that value alone differ in that line alone.
#[verifier::rlimit(60)]
pub proof fn law_worker_series(r: Registry, o: Registry, t: FloatTexts, u: FloatTexts)
    ensures
        one_line_apart(
            registry_text(r, t),
            registry_text(Registry { worker_up: o.worker_up, ..r }, t),
            "braidpipe_worker_up"@,
            signed_decimal(r.worker_up.value as int),
            signed_decimal(o.worker_up.value as int),
        ),
        one_line_apart(
            registry_text(r, t),
            registry_text(Registry { worker_exits: o.worker_exits, ..r }, t),
            "braidpipe_worker_exits_total"@,
            decimal(r.worker_exits.value as nat),
            decimal(o.worker_exits.value as nat),
        ),
        one_line_apart(
            registry_text(r, t),
            registry_text(Registry { worker_last_exit_code: o.worker_last_exit_code, ..r }, t),
            "braidpipe_worker_last_exit_code"@,
            signed_decimal(r.worker_last_exit_code.value as int),
            signed_decimal(o.worker_last_exit_code.value as int),
        ),
        one_line_apart(
            registry_text(r, t),
            registry_text(r, FloatTexts { worker_cpu: u.worker_cpu, ..t }),
            "braidpipe_worker_cpu_seconds_total"@,
            t.worker_cpu@,
            u.worker_cpu@,
        ),
        one_line_apart(
            registry_text(r, t),
            registry_text(Registry { worker_rss_bytes: o.worker_rss_bytes, ..r }, t),
            "braidpipe_worker_resident_memory_bytes"@,
            signed_decimal(r.worker_rss_bytes.value as int),
            signed_decimal(o.worker_rss_bytes.value as int),
        ),
{
    lemma_worker_lines(r, o, t, u);
    let s = Registry { worker_up: o.worker_up, ..r };
    let v = t;
    lemma_same_groups(r, s, t, v);
    lemma_page_apart_worker(
        r,
        t,
        s,
        v,
        "braidpipe_worker_up"@,
        signed_decimal(r.worker_up.value as int),
        signed_decimal(o.worker_up.value as int),
    );
    let s = Registry { worker_exits: o.worker_exits, ..r };
    let v = t;
    lemma_same_groups(r, s, t, v);
    lemma_page_apart_worker(
        r,
        t,
        s,
        v,
        "braidpipe_worker_exits_total"@,
        decimal(r.worker_exits.value as nat),
        decimal(o.worker_exits.value as nat),
    );
    let s = Registry { worker_last_exit_code: o.worker_last_exit_code, ..r };
    let v = t;
    lemma_same_groups(r, s, t, v);
    lemma_page_apart_worker(
        r,
        t,
        s,
        v,
        "braidpipe_worker_last_exit_code"@,
        signed_decimal(r.worker_last_exit_code.value as int),
        signed_decimal(o.worker_last_exit_code.value as int),
    );
    let s = r;
    let v = FloatTexts { worker_cpu: u.worker_cpu, ..t };
    lemma_same_groups(r, s, t, v);
    lemma_page_apart_worker(
        r,
        t,
        s,
        v,
        "braidpipe_worker_cpu_seconds_total"@,
        t.worker_cpu@,
        u.worker_cpu@,
    );
    let s = Registry { worker_rss_bytes: o.worker_rss_bytes, ..r };
    let v = t;
    lemma_same_groups(r, s, t, v);
    lemma_page_apart_worker(
        r,
        t,
        s,
        v,
        "braidpipe_worker_resident_memory_bytes"@,
        signed_decimal(r.worker_rss_bytes.value as int),
        signed_decimal(o.worker_rss_bytes.value as int),
    );
}

/// Each series on the input has its own line on the page, and nothing else on the
/// page depends on its value: pages that differ in that value alone differ in that line alone.
#[verifier::rlimit(60)]
pub proof fn law_input_series(r: Registry, o: Registry, t: FloatTexts, u: FloatTexts)
    ensures
        one_line_apart(
            registry_text(r, t),
            registry_text(Registry { input_frames: o.input_frames, ..r }, t),
            "braidpipe_input_frames_total"@,
            decimal(r.input_frames.value as nat),
            decimal(o.input_frames.value as nat),
        ),
        one_line_apart(
            registry_text(r, t),
            registry_text(Registry { pts_discontinuities: o.pts_discontinuities, ..r }, t),
            "braidpipe_pts_discontinuities_total"@,
            decimal(r.pts_discontinuities.value as nat),
            decimal(o.pts_discontinuities.value as nat),
        ),
        one_line_apart(
            registry_text(r, t),
            registry_text(Registry { input_width: o.input_width, ..r }, t),
            "braidpipe_input_width"@,
            signed_decimal(r.input_width.value as int),
            signed_decimal(o.input_width.value as int),
        ),
        one_line_apart(
            registry_text(r, t),
            registry_text(Registry { input_height: o.input_height, ..r }, t),
            "braidpipe_input_height"@,
            signed_decimal(r.input_height.value as int),
            signed_decimal(o.input_height.value as int),
        ),
        one_line_apart(
            registry_text(r, t),
            registry_text(r, FloatTexts { input_fps: u.input_fps, ..t }),
            "braidpipe_input_fps"@,
            t.input_fps@,
            u.input_fps@,
        ),
{
    lemma_input_lines(r, o, t, u);
    let s = Registry { input_frames: o.input_frames, ..r };
    let v = t;
    lemma_same_groups(r, s, t, v);
    lemma_page_apart_input(
        r,
        t,
        s,
        v,
        "braidpipe_input_frames_total"@,
        decimal(r.input_frames.value as nat),
        decimal(o.input_frames.value as nat),
    );
    let s = Registry { pts_discontinuities: o.pts_discontinuities, ..r };
    let v = t;
    lemma_same_groups(r, s, t, v);
    lemma_page_apart_input(
        r,
        t,
        s,
        v,
        "braidpipe_pts_discontinuities_total"@,
        decimal(r.pts_discontinuities.value as nat),
        decimal(o.pts_discontinuities.value as nat),
    );
    let s = Registry { input_width: o.input_width, ..r };
    let v = t;
    lemma_same_groups(r, s, t, v);
    lemma_page_apart_input(
        r,
        t,
        s,
        v,
        "braidpipe_input_width"@,
        signed_decimal(r.input_width.value as int),
        signed_decimal(o.input_width.value as int),
    );
    let s = Registry { input_height: o.input_height, ..r };
    let v = t;
    lemma_same_groups(r, s, t, v);
    lemma_page_apart_input(
        r,
        t,
        s,
        v,
        "braidpipe_input_height"@,
        signed_decimal(r.input_height.value as int),
        signed_decimal(o.input_height.value as int),
    );
    let s = r;
    let v = FloatTexts { input_fps: u.input_fps, ..t };
    lemma_same_groups(r, s, t, v);
    lemma_page_apart_input(r, t, s, v, "braidpipe_input_fps"@, t.input_fps@, u.input_fps@);
}

/// Each series on the output has its own line on the page, and nothing else on the
/// page depends on its value: pages that differ in that value alone differ in that line alone.
#[verifier::rlimit(60)]
pub proof fn law_output_series(r: Registry, o: Registry, t: FloatTexts, u: FloatTexts)
    ensures
        one_line_apart(
            registry_text(r, t),
            registry_text(Registry { output_frames: o.output_frames, ..r }, t),
            "braidpipe_output_frames_total"@,
            decimal(r.output_frames.value as nat),
            decimal(o.output_frames.value as nat),
        ),
        one_line_apart(
            registry_text(r, t),
            registry_text(Registry { sink_bytes: o.sink_bytes, ..r }, t),
            "braidpipe_sink_bytes_total"@,
            decimal(r.sink_bytes.value as nat),
            decimal(o.sink_bytes.value as nat),
        ),
        one_line_apart(
            registry_text(r, t),
            registry_text(Registry { sink_buffers: o.sink_buffers, ..r }, t),
            "braidpipe_sink_buffers_total"@,
            decimal(r.sink_buffers.value as nat),
            decimal(o.sink_buffers.value as nat),
        ),
        one_line_apart(
            registry_text(r, t),
            registry_text(Registry { keyframes: o.keyframes, ..r }, t),
            "braidpipe_keyframes_total"@,
            decimal(r.keyframes.value as nat),
            decimal(o.keyframes.value as nat),
        ),
        one_line_apart(
            registry_text(r, t),
            registry_text(Registry { queue_overruns_pass: o.queue_overruns_pass, ..r }, t),
            "braidpipe_queue_drop_events_total{queue=\"q_pass\"}"@,
            decimal(r.queue_overruns_pass.value as nat),
            decimal(o.queue_overruns_pass.value as nat),
        ),
        one_line_apart(
            registry_text(r, t),
            registry_text(Registry { queue_overruns_ai: o.queue_overruns_ai, ..r }, t),
            "braidpipe_queue_drop_events_total{queue=\"q_ai\"}"@,
            decimal(r.queue_overruns_ai.value as nat),
            decimal(o.queue_overruns_ai.value as nat),
        ),
        one_line_apart(
            registry_text(r, t),
            registry_text(Registry { bus_errors: o.bus_errors, ..r }, t),
            "braidpipe_bus_messages_total{severity=\"error\"}"@,
            decimal(r.bus_errors.value as nat),
            decimal(o.bus_errors.value as nat),
        ),
        one_line_apart(
            registry_text(r, t),
            registry_text(Registry { bus_warnings: o.bus_warnings, ..r }, t),
            "braidpipe_bus_messages_total{severity=\"warning\"}"@,
            decimal(r.bus_warnings.value as nat),
            decimal(o.bus_warnings.value as nat),
        ),
{
    lemma_output_lines(r, o, t, u);
    let s = Registry { output_frames: o.output_frames, ..r };
    let v = t;
    lemma_same_groups(r, s, t, v);
    lemma_page_apart_output(
        r,
        t,
        s,
        v,
        "braidpipe_output_frames_total"@,
        decimal(r.output_frames.value as nat),
        decimal(o.output_frames.value as nat),
    );
    let s = Registry { sink_bytes: o.sink_bytes, ..r };
    let v = t;
    lemma_same_groups(r, s, t, v);
    lemma_page_apart_output(
        r,
        t,
        s,
        v,
        "braidpipe_sink_bytes_total"@,
        decimal(r.sink_bytes.value as nat),
        decimal(o.sink_bytes.value as nat),
    );
    let s = Registry { sink_buffers: o.sink_buffers, ..r };
    let v = t;
    lemma_same_groups(r, s, t, v);
    lemma_page_apart_output(
        r,
        t,
        s,
        v,
        "braidpipe_sink_buffers_total"@,
        decimal(r.sink_buffers.value as nat),
        decimal(o.sink_buffers.value as nat),
    );
    let s = Registry { keyframes: o.keyframes, ..r };
    let v = t;
    lemma_same_groups(r, s, t, v);
    lemma_page_apart_output(
        r,
        t,
        s,
        v,
        "braidpipe_keyframes_total"@,
        decimal(r.keyframes.value as nat),
        decimal(o.keyframes.value as nat),
    );
    let s = Registry { queue_overruns_pass: o.queue_overruns_pass, ..r };
    let v = t;
    lemma_same_groups(r, s, t, v);
    lemma_page_apart_output(
        r,
        t,
        s,
        v,
        "braidpipe_queue_drop_events_total{queue=\"q_pass\"}"@,
        decimal(r.queue_overruns_pass.value as nat),
        decimal(o.queue_overruns_pass.value as nat),
    );
    let s = Registry { queue_overruns_ai: o.queue_overruns_ai, ..r };
    let v = t;
    lemma_same_groups(r, s, t, v);
    lemma_page_apart_output(
        r,
        t,
        s,
        v,
        "braidpipe_queue_drop_events_total{queue=\"q_ai\"}"@,
        decimal(r.queue_overruns_ai.value as nat),
        decimal(o.queue_overruns_ai.value as nat),
    );
    let s = Registry { bus_errors: o.bus_errors, ..r };
    let v = t;
    lemma_same_groups(r, s, t, v);
    lemma_page_apart_output(
        r,
        t,
        s,
        v,
        "braidpipe_bus_messages_total{severity=\"error\"}"@,
        decimal(r.bus_errors.value as nat),
        decimal(o.bus_errors.value as nat),
    );
    let s = Registry { bus_warnings: o.bus_warnings, ..r };
    let v = t;
    lemma_same_groups(r, s, t, v);
    lemma_page_apart_output(
        r,
        t,
        s,
        v,
        "braidpipe_bus_messages_total{severity=\"warning\"}"@,
        decimal(r.bus_warnings.value as nat),
        decimal(o.bus_warnings.value as nat),
    );
}

/// Every metric declares what it is: a gauge, a counter or a histogram.
pub proof fn law_metrics_declare_their_kind(
    name: Seq<char>,
    help: Seq<char>,
    value: Seq<char>,
    h: Histogram,
)
    ensures
        has_value(gauge_text(name, help, value), "# TYPE "@ + name, "gauge"@),
        has_value(gauge_text(name, help, value), "# HELP "@ + name, help),
        has_value(counter_head(name, help), "# TYPE "@ + name, "counter"@),
        has_value(counter_head(name, help), "# HELP "@ + name, help),
        has_value(histogram_text(h, name, value), "# TYPE "@ + name, "histogram"@),
{
    reveal(has_value);
    reveal_strlit("\n");
    reveal_strlit(" ");
    reveal_strlit("# TYPE ");
    reveal_strlit("\n# TYPE ");
    reveal_strlit("gauge");
    reveal_strlit(" gauge\n");
    reveal_strlit("counter");
    reveal_strlit(" counter\n");
    reveal_strlit("histogram");
    reveal_strlit(" histogram\n");
    let none = Seq::<char>::empty();
    let explained = value_line("# HELP "@ + name, help);
    let series = "# TYPE "@ + name;
    let sample = name + " "@ + value + "\n"@;
    let gauge = value_line(series, "gauge"@);
    assert(gauge_text(name, help, value) =~= explained + gauge + sample);
    assert(gauge_text(name, help, value) =~= none + explained + (gauge + sample));
    assert(line_between(gauge_text(name, help, value), explained, gauge, sample));
    assert(line_between(gauge_text(name, help, value), none, explained, gauge + sample));
    let counter = value_line(series, "counter"@);
    assert(counter_head(name, help) =~= explained + counter + none);
    assert(counter_head(name, help) =~= none + explained + counter);
    assert(line_between(counter_head(name, help), explained, counter, none));
    assert(line_between(counter_head(name, help), none, explained, counter));
    let text = histogram_text(h, name, value);
    let first = value_line(series, "histogram"@);
    assert(first =~= "# TYPE "@ + name + " histogram\n"@);
    let rest = text.skip(first.len() as int);
    assert(text =~= none + first + rest);
    assert(line_between(text, none, first, rest));
}

proof fn lemma_bucket_lines(h: Histogram, name: Seq<char>, i: int, n: nat)
    requires
        0 <= i < n <= 13,
    ensures
        whole_lines(bucket_lines(h, name, n)),
        has_value(
            bucket_lines(h, name, n),
            name + "_bucket{le=\""@ + BUCKET_LABELS@[i]@ + "\"}"@,
            decimal(h.buckets@[i] as nat),
        ),
    decreases n,
{
    reveal(has_value);
    reveal_strlit("\n");
    reveal_strlit(" ");
    reveal_strlit("\"}");
    reveal_strlit("\"} ");
    let none = Seq::<char>::empty();
    let earlier = bucket_lines(h, name, (n - 1) as nat);
    let series = name + "_bucket{le=\""@ + BUCKET_LABELS@[n - 1]@ + "\"}"@;
    let value = decimal(h.buckets@[n - 1] as nat);
    let line = name + "_bucket{le=\""@ + BUCKET_LABELS@[n - 1]@ + "\"} "@ + value + "\n"@;
    assert(line =~= value_line(series, value));
    if i == n - 1 {
        if n > 1 {
            lemma_bucket_lines(h, name, 0, (n - 1) as nat);
        } else {
            assert(earlier =~= none);
        }
        assert(bucket_lines(h, name, n) =~= earlier + value_line(series, value) + none);
        assert(line_between(bucket_lines(h, name, n), earlier, value_line(series, value), none));
    } else {
        lemma_bucket_lines(h, name, i, (n - 1) as nat);
        lemma_value_before(
            earlier,
            line,
            name + "_bucket{le=\""@ + BUCKET_LABELS@[i]@ + "\"}"@,
            decimal(h.buckets@[i] as nat),
        );
    }
}

/// A histogram gives each bucket under the bound it counts up to, all of its
/// observations in the bucket without a bound and as the count, and their sum.
pub proof fn law_histogram_lines(h: Histogram, name: Seq<char>, sum: Seq<char>, i: int)
    requires
        0 <= i < 13,
    ensures
        has_value(
            histogram_text(h, name, sum),
            name + "_bucket{le=\""@ + BUCKET_LABELS@[i]@ + "\"}"@,
            decimal(h.buckets@[i] as nat),
        ),
        has_value(
            histogram_text(h, name, sum),
            name + "_bucket{le=\"+Inf\"}"@,
            decimal(h.count as nat),
        ),
        has_value(histogram_text(h, name, sum), name + "_sum"@, seconds_or(h.sum_us, sum)),
        has_value(histogram_text(h, name, sum), name + "_count"@, decimal(h.count as nat)),
{
    reveal(has_value);
    reveal_strlit("\n");
    reveal_strlit(" ");
    reveal_strlit(" histogram\n");
    reveal_strlit("_bucket{le=\"+Inf\"}");
    reveal_strlit("_bucket{le=\"+Inf\"} ");
    reveal_strlit("_sum");
    reveal_strlit("_sum ");
    reveal_strlit("_count");
    reveal_strlit("_count ");
    let none = Seq::<char>::empty();
    let count = decimal(h.count as nat);
    let total = seconds_or(h.sum_us, sum);
    let a = "# TYPE "@ + name + " histogram\n"@;
    let b = bucket_lines(h, name, 13);
    let c = name + "_bucket{le=\"+Inf\"} "@ + count + "\n"@;
    let d = name + "_sum "@ + total + "\n"@;
    let e = name + "_count "@ + count + "\n"@;
    assert(c =~= value_line(name + "_bucket{le=\"+Inf\"}"@, count));
    assert(d =~= value_line(name + "_sum"@, total));
    assert(e =~= value_line(name + "_count"@, count));
    lemma_bucket_lines(h, name, i, 13);
    let series = name + "_bucket{le=\""@ + BUCKET_LABELS@[i]@ + "\"}"@;
    let value = decimal(h.buckets@[i] as nat);
    lemma_value_behind(a, b, series, value);
    lemma_value_before(a + b, c, series, value);
    lemma_value_before(a + b + c, d, series, value);
    lemma_value_before(a + b + c + d, e, series, value);
    let text = histogram_text(h, name, sum);
    lemma_whole_sum(a, b);
    lemma_whole_sum(a + b, c);
    lemma_whole_sum(a + b + c, d);
    assert(text =~= (a + b) + c + (d + e));
    assert(line_between(text, a + b, c, d + e));
    assert(line_between(text, a + b + c, d, e));
    assert(text =~= (a + b + c + d) + e + none);
    assert(line_between(text, a + b + c + d, e, none));
}

/// What a group of the page says, the page says.
proof fn lemma_value_on_page(r: Registry, t: FloatTexts, series: Seq<char>, value: Seq<char>)
    ensures
        has_value(frame_metrics(r, t), series, value) ==> has_value(
            registry_text(r, t),
            series,
            value,
        ),
        has_value(input_metrics(r, t), series, value) ==> has_value(
            registry_text(r, t),
            series,
            value,
        ),
{
    let h0 = frame_metrics(r, t);
    let h1 = h0 + relay_metrics(r, t);
    let h2 = h1 + failover_metrics(r, t);
    let h3 = h2 + worker_metrics(r, t);
    let h4 = h3 + input_metrics(r, t);
    let h5 = h4 + output_metrics(r, t);
    if has_value(h0, series, value) {
        lemma_value_before(h0, relay_metrics(r, t), series, value);
        lemma_value_before(h1, failover_metrics(r, t), series, value);
        lemma_value_before(h2, worker_metrics(r, t), series, value);
        lemma_value_before(h3, input_metrics(r, t), series, value);
        lemma_value_before(h4, output_metrics(r, t), series, value);
        lemma_value_before(h5, skew_metrics(r, t), series, value);
    }
    if has_value(input_metrics(r, t), series, value) {
        lemma_frame_lines(r, r, t, t);
        lemma_relay_lines(r, r, t, t);
        lemma_failover_lines(r, r, t, t);
        lemma_worker_lines(r, r, t, t);
        lemma_whole_sum(h0, relay_metrics(r, t));
        lemma_whole_sum(h1, failover_metrics(r, t));
        lemma_whole_sum(h2, worker_metrics(r, t));
        lemma_value_behind(h3, input_metrics(r, t), series, value);
        lemma_value_before(h4, output_metrics(r, t), series, value);
        lemma_value_before(h5, skew_metrics(r, t), series, value);
    }
}

/// The page has the histogram of roundtrips, of processing times and of the
/// intervals at the input, each under its own name.
pub proof fn law_histograms_are_on_the_page(
    r: Registry,
    t: FloatTexts,
    series: Seq<char>,
    value: Seq<char>,
)
    ensures
        has_value(
            histogram_text(r.roundtrip_seconds, "braidpipe_roundtrip_seconds"@, t.roundtrip_sum@),
            series,
            value,
        ) ==> has_value(registry_text(r, t), series, value),
        has_value(
            histogram_text(
                r.worker_processing_seconds,
                "braidpipe_worker_processing_seconds"@,
                t.worker_processing_sum@,
            ),
            series,
            value,
        ) ==> has_value(registry_text(r, t), series, value),
        has_value(
            histogram_text(
                r.input_interval_seconds,
                "braidpipe_input_interval_seconds"@,
                t.input_interval_sum@,
            ),
            series,
            value,
        ) ==> has_value(registry_text(r, t), series, value),
{
    lemma_whole_parts();
    lemma_value_on_page(r, t, series, value);
    let a0 = gauge_text(
        "braidpipe_up"@,
        "1 while the daemon is running, 0 once shutdown has begun"@,
        signed_decimal(r.up.value as int),
    );
    let a1 = counter_head(
        "braidpipe_frames_total"@,
        "Frames pushed downstream by the relay, by outcome"@,
    );
    let a2 = sample_text(
        "braidpipe_frames_total"@,
        "{outcome=\"ai\"}"@,
        decimal(r.frames_ai.value as nat),
    );
    let a3 = sample_text(
        "braidpipe_frames_total"@,
        "{outcome=\"passthrough\"}"@,
        decimal(r.frames_passthrough.value as nat),
    );
    let h = a0 + a1 + a2 + a3;
    lemma_whole_sum(a0, a1);
    lemma_whole_sum(a0 + a1, a2);
    lemma_whole_sum(a0 + a1 + a2, a3);
    let trips = histogram_text(
        r.roundtrip_seconds,
        "braidpipe_roundtrip_seconds"@,
        t.roundtrip_sum@,
    );
    let times = histogram_text(
        r.worker_processing_seconds,
        "braidpipe_worker_processing_seconds"@,
        t.worker_processing_sum@,
    );
    if has_value(trips, series, value) {
        lemma_value_behind(h, trips, series, value);
        lemma_value_before(h + trips, times, series, value);
    }
    if has_value(times, series, value) {
        lemma_whole_sum(h, trips);
        lemma_value_behind(h + trips, times, series, value);
    }
    let b0 = counter_head("braidpipe_input_frames_total"@, "Frames arriving from the source"@);
    let b1 = sample_text(
        "braidpipe_input_frames_total"@,
        ""@,
        decimal(r.input_frames.value as nat),
    );
    let intervals = histogram_text(
        r.input_interval_seconds,
        "braidpipe_input_interval_seconds"@,
        t.input_interval_sum@,
    );
    let b3 = counter_head(
        "braidpipe_pts_discontinuities_total"@,
        "Input timestamps that went backwards or gapped"@,
    );
    let b4 = sample_text(
        "braidpipe_pts_discontinuities_total"@,
        ""@,
        decimal(r.pts_discontinuities.value as nat),
    );
    let b5 = gauge_text(
        "braidpipe_input_width"@,
        "Negotiated input width"@,
        signed_decimal(r.input_width.value as int),
    );
    let b6 = gauge_text(
        "braidpipe_input_height"@,
        "Negotiated input height"@,
        signed_decimal(r.input_height.value as int),
    );
    let b7 = gauge_text(
        "braidpipe_input_fps"@,
        "Negotiated input frame rate"@,
        t.input_fps@,
    );
    if has_value(intervals, series, value) {
        lemma_whole_sum(b0, b1);
        lemma_value_behind(b0 + b1, intervals, series, value);
        let i2 = b0 + b1 + intervals;
        lemma_value_before(i2, b3, series, value);
        lemma_value_before(i2 + b3, b4, series, value);
        lemma_value_before(i2 + b3 + b4, b5, series, value);
        lemma_value_before(i2 + b3 + b4 + b5, b6, series, value);
        lemma_value_before(i2 + b3 + b4 + b5 + b6, b7, series, value);
    }
}

/// The skew is on the page once both streams have been seen, as video minus
/// audio; until then the page does not depend on either.
pub proof fn law_skew_is_video_minus_audio(r: Registry, o: Registry, t: FloatTexts)
    ensures
        r.last_video_pts_us >= 0 && r.last_audio_pts_us >= 0 ==> has_value(
            registry_text(r, t),
            "braidpipe_av_skew_seconds"@,
            signed_seconds_or(r.last_video_pts_us - r.last_audio_pts_us, t.av_skew@),
        ),
        r.last_video_pts_us < 0 && o.last_video_pts_us < 0 ==> registry_text(r, t)
            == registry_text(
            Registry {
                last_video_pts_us: o.last_video_pts_us,
                last_audio_pts_us: o.last_audio_pts_us,
                ..r
            },
            t,
        ),
        r.last_audio_pts_us < 0 && o.last_audio_pts_us < 0 ==> registry_text(r, t)
            == registry_text(
            Registry {
                last_video_pts_us: o.last_video_pts_us,
                last_audio_pts_us: o.last_audio_pts_us,
                ..r
            },
            t,
        ),
{
    if r.last_video_pts_us >= 0 && r.last_audio_pts_us >= 0 {
        let series = "braidpipe_av_skew_seconds"@;
        let value = signed_seconds_or(r.last_video_pts_us - r.last_audio_pts_us, t.av_skew@);
        lemma_gauge_apart(series, "Video minus audio PTS at the muxer"@, value, value);
        lemma_apart_has_values(skew_metrics(r, t), skew_metrics(r, t), series, value, value);
        lemma_frame_lines(r, r, t, t);
        lemma_relay_lines(r, r, t, t);
        lemma_failover_lines(r, r, t, t);
        lemma_worker_lines(r, r, t, t);
        lemma_input_lines(r, r, t, t);
        lemma_output_lines(r, r, t, t);
        let h1 = frame_metrics(r, t) + relay_metrics(r, t);
        let h2 = h1 + failover_metrics(r, t);
        let h3 = h2 + worker_metrics(r, t);
        let h4 = h3 + input_metrics(r, t);
        let h5 = h4 + output_metrics(r, t);
        lemma_whole_sum(frame_metrics(r, t), relay_metrics(r, t));
        lemma_whole_sum(h1, failover_metrics(r, t));
        lemma_whole_sum(h2, worker_metrics(r, t));
        lemma_whole_sum(h3, input_metrics(r, t));
        lemma_whole_sum(h4, output_metrics(r, t));
        lemma_value_behind(h5, skew_metrics(r, t), series, value);
    }
}

/// The page is made of whole lines.
pub proof fn law_page_is_whole_lines(r: Registry, t: FloatTexts)
    ensures
        whole_lines(registry_text(r, t)),
{
    lemma_frame_lines(r, r, t, t);
    lemma_relay_lines(r, r, t, t);
    lemma_failover_lines(r, r, t, t);
    lemma_worker_lines(r, r, t, t);
    lemma_input_lines(r, r, t, t);
    lemma_output_lines(r, r, t, t);
    lemma_whole_parts();
    let h1 = frame_metrics(r, t) + relay_metrics(r, t);
    let h2 = h1 + failover_metrics(r, t);
    let h3 = h2 + worker_metrics(r, t);
    let h4 = h3 + input_metrics(r, t);
    let h5 = h4 + output_metrics(r, t);
    lemma_whole_sum(frame_metrics(r, t), relay_metrics(r, t));
    lemma_whole_sum(h1, failover_metrics(r, t));
    lemma_whole_sum(h2, worker_metrics(r, t));
    lemma_whole_sum(h3, input_metrics(r, t));
    lemma_whole_sum(h4, output_metrics(r, t));
    assert(whole_lines(skew_metrics(r, t)));
    lemma_whole_sum(h5, skew_metrics(r, t));
}

/// The page tells how a frame ended: one that was delivered shows in the
/// number of AI frames, which is one higher, and not in that of the frames
/// passed through; one that failed the other way round. The streak on the page
/// is the bridge's own.
pub proof fn law_an_outcome_shows_on_the_page(
    bridge: UdsControlBridge,
    r: Registry,
    bridge_after: UdsControlBridge,
    after: Registry,
    delivered: bool,
    roundtrip_seconds: u64,
    processing_seconds: u64,
    now_seconds: u64,
    t: FloatTexts,
)
    requires
        settles(
            bridge,
            r,
            bridge_after,
            after,
            delivered,
            roundtrip_seconds,
            processing_seconds,
            now_seconds,
        ),
    ensures
        has_value(
            registry_text(after, t),
            "braidpipe_frames_total{outcome=\"ai\"}"@,
            decimal(
                if delivered {
                    wrapping_sum(r.frames_ai.value, 1) as nat
                } else {
                    r.frames_ai.value as nat
                },
            ),
        ),
        has_value(
            registry_text(after, t),
            "braidpipe_frames_total{outcome=\"passthrough\"}"@,
            decimal(
                if delivered {
                    r.frames_passthrough.value as nat
                } else {
                    wrapping_sum(r.frames_passthrough.value, 1) as nat
                },
            ),
        ),
        has_value(
            registry_text(after, t),
            "braidpipe_failure_streak"@,
            decimal(bridge_after.failure_streak as nat),
        ),
{
    law_frame_series(after, after, t, t);
    law_failover_series(after, after, t, t);
    let page = registry_text(after, t);
    assert(after == (Registry { frames_ai: after.frames_ai, ..after }));
    assert(after == (Registry { frames_passthrough: after.frames_passthrough, ..after }));
    assert(after == (Registry { failure_streak: after.failure_streak, ..after }));
    let ai = decimal(after.frames_ai.value as nat);
    let passthrough = decimal(after.frames_passthrough.value as nat);
    let streak = signed_decimal(after.failure_streak.value as int);
    lemma_apart_has_values(page, page, "braidpipe_frames_total{outcome=\"ai\"}"@, ai, ai);
    lemma_apart_has_values(
        page,
        page,
        "braidpipe_frames_total{outcome=\"passthrough\"}"@,
        passthrough,
        passthrough,
    );
    lemma_apart_has_values(page, page, "braidpipe_failure_streak"@, streak, streak);
}

} // verus!
