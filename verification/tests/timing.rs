use rbx_studio_mcp::binary64::Real;
use rbx_studio_mcp::timing::{elapsed, execution_timeout, whole_seconds};
use rbx_studio_mcp::tools::{
    ControlCharacter, GetStudioMode, InputSequence, InputStep, MouseDrag, RunScriptInPlayMode, SendKey,
    TakeScreenshotCapture, TakeScreenshotRead, ToolArgumentValues, WaitFor,
};

const SEC: u128 = 1_000_000_000;

fn number(x: f64) -> Option<Real> {
    Real::from_bits(x.to_bits())
}

fn key(duration: Option<Real>) -> ToolArgumentValues {
    ToolArgumentValues::SendKey(SendKey { key: "W".to_string(), action: None, duration })
}

fn character(duration: Option<Real>) -> ToolArgumentValues {
    ToolArgumentValues::ControlCharacter(ControlCharacter {
        action: "walk".to_string(),
        x: None,
        y: None,
        z: None,
        duration,
    })
}

fn wait(timeout: Option<Real>) -> ToolArgumentValues {
    ToolArgumentValues::WaitFor(WaitFor {
        condition: "return true".to_string(),
        timeout,
        poll_interval: None,
        context: None,
    })
}

fn drag(duration: Option<Real>) -> ToolArgumentValues {
    ToolArgumentValues::MouseDrag(MouseDrag {
        from_path: None,
        from_x: None,
        from_y: None,
        to_path: None,
        to_x: None,
        to_y: None,
        button: None,
        duration,
        steps: None,
    })
}

fn step(seconds: Option<Real>, duration: Option<Real>) -> InputStep {
    InputStep {
        action: "wait".to_string(),
        path: None,
        x: None,
        y: None,
        from_path: None,
        from_x: None,
        from_y: None,
        to_path: None,
        to_x: None,
        to_y: None,
        button: None,
        mode: None,
        key: None,
        duration,
        text: None,
        textbox_path: None,
        submit: None,
        seconds,
        force: None,
        steps: None,
    }
}

fn script(timeout: Option<u32>) -> ToolArgumentValues {
    ToolArgumentValues::RunScriptInPlayMode(RunScriptInPlayMode {
        code: String::new(),
        timeout,
        mode: "start_play".to_string(),
    })
}

#[test]
fn timeouts_of_the_tools() {
    assert_eq!(execution_timeout(&ToolArgumentValues::GetStudioMode(GetStudioMode {})), 300 * SEC);
    assert_eq!(execution_timeout(&script(None)), 160 * SEC);
    assert_eq!(execution_timeout(&script(Some(0))), 60 * SEC);
    assert_eq!(execution_timeout(&script(Some(u32::MAX))), (u32::MAX as u128 + 60) * SEC);
    let capture = TakeScreenshotCapture { ui_path: None, isolate: None, park_mouse: None };
    assert_eq!(execution_timeout(&ToolArgumentValues::TakeScreenshotCapture(capture)), 30 * SEC);
    let read = TakeScreenshotRead {
        content_id: String::new(),
        viewport_w: number(1.0).unwrap(),
        viewport_h: number(1.0).unwrap(),
        rect: None,
    };
    assert_eq!(execution_timeout(&ToolArgumentValues::TakeScreenshotRead(read)), 90 * SEC);
    assert_eq!(execution_timeout(&key(None)), 30 * SEC);
    assert_eq!(execution_timeout(&key(number(2.5))), 32 * SEC + SEC / 2);
    assert_eq!(execution_timeout(&key(number(-3.0))), 30 * SEC);
    assert_eq!(execution_timeout(&key(number(99.0))), 60 * SEC);
    assert_eq!(execution_timeout(&character(None)), 45 * SEC);
    assert_eq!(execution_timeout(&character(number(1e9))), 90 * SEC);
    assert_eq!(execution_timeout(&wait(None)), 90 * SEC);
    assert_eq!(execution_timeout(&wait(number(0.0))), 60 * SEC + SEC / 10);
    assert_eq!(execution_timeout(&wait(number(1e9))), 660 * SEC);
    assert_eq!(execution_timeout(&drag(None)), 30 * SEC + SEC / 2);
    assert_eq!(execution_timeout(&drag(number(0.0))), 30 * SEC + SEC / 20);
    assert_eq!(execution_timeout(&drag(number(11.0))), 40 * SEC);
}

#[test]
fn sequences_add_up() {
    let empty = ToolArgumentValues::InputSequence(InputSequence { steps: vec![] });
    assert_eq!(execution_timeout(&empty), 60 * SEC);
    let steps = vec![
        step(None, None),
        step(number(0.25), None),
        step(number(99.0), number(99.0)),
        step(None, number(-1.0)),
    ];
    let sequence = ToolArgumentValues::InputSequence(InputSequence { steps });
    assert_eq!(execution_timeout(&sequence), 60 * SEC + 4 * SEC + SEC / 4 + 40 * SEC);
}

fn sequence(steps: &[(f64, f64)]) -> u128 {
    let steps = steps.iter().map(|(pause, hold)| step(number(*pause), number(*hold))).collect();
    execution_timeout(&ToolArgumentValues::InputSequence(InputSequence { steps }))
}

#[test]
fn sequences_round_their_sum_and_not_their_steps() {
    assert_eq!(sequence(&[(0.4e-9, 0.0)]), 61 * SEC);
    assert_eq!(sequence(&[(0.4e-9, 0.0), (0.4e-9, 0.0)]), 62 * SEC + 1);
    assert_eq!(sequence(&[(0.0, 0.4e-9), (0.0, 0.4e-9), (0.0, 0.4e-9)]), 63 * SEC + 1);
    // Too little to move the sum, or not even a normal number.
    assert_eq!(sequence(&[(1e-17, 1e-300)]), 61 * SEC);
    assert_eq!(sequence(&[(f64::from_bits(1), f64::INFINITY)]), 91 * SEC);
    assert_eq!(sequence(&[(f64::NEG_INFINITY, -0.0)]), 61 * SEC);
    assert_eq!(sequence(&[(f64::MAX, 30.000000000000004)]), 101 * SEC);
}

#[test]
fn sequences_of_whole_seconds_add_up_in_any_order() {
    let grace = 60 * SEC;
    let a = [(1.0, 2.0), (0.0, -5.0), (99.0, 99.0)];
    let b = [(3.0, 0.0), (10.0, 30.0)];
    let mut both = a.to_vec();
    both.extend_from_slice(&b);
    assert_eq!(sequence(&a) - grace, 46 * SEC);
    assert_eq!(sequence(&b) - grace, 45 * SEC);
    assert_eq!(sequence(&both) - grace, 91 * SEC);
    both.reverse();
    assert_eq!(sequence(&both) - grace, 91 * SEC);
    both.swap(1, 3);
    assert_eq!(sequence(&both) - grace, 91 * SEC);
    assert_eq!(sequence(&[]), grace);
    assert_eq!(sequence(&[(0.0, 0.0); 100]) - grace, 100 * SEC);
    assert_eq!(sequence(&[(10.0, 30.0); 100]) - grace, 4100 * SEC);
}

#[test]
fn sequences_add_up_as_floating_point_numbers_do() {
    let mut state: u64 = 0x9e37_79b9_7f4a_7c15;
    for round in 0..400 {
        let mut steps = Vec::new();
        for _ in 0..(round % 40) + 1 {
            let mut pair = [0.0f64; 2];
            for value in pair.iter_mut() {
                state = state.wrapping_mul(6364136223846793005).wrapping_add(1442695040888963407);
                let exponent = 1023 - 70 + (state >> 57) % 76;
                *value = f64::from_bits((exponent << 52) | (state >> 3 & 0xf_ffff_ffff_ffff));
            }
            steps.push((pair[0], pair[1]));
        }
        let total: f64 =
            steps.iter().map(|(p, h)| 1.0 + p.clamp(0.0, 10.0) + h.clamp(0.0, 30.0)).sum();
        let expected = std::time::Duration::from_secs_f64(total).as_nanos() + 60 * SEC;
        assert_eq!(sequence(&steps), expected);
    }
}

#[test]
fn whole_seconds_and_elapsed_time() {
    assert_eq!(whole_seconds(30 * SEC + SEC - 1), 30);
    assert_eq!(elapsed(10, 3), 7);
    assert_eq!(elapsed(3, 10), 0);
}
