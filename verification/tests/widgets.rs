use rust_hdl::ast::{Verilog, WidthError};
use rust_hdl::atom::{Atom, AtomKind, Signal};
use rust_hdl::bits::{truncate, wrapping_add};
use rust_hdl::block::Block;
use rust_hdl::logic::{logic_connect_fn, Logic};
use rust_hdl::module_defines::{generate_verilog, ModuleDefines};
use rust_hdl::verilog_gen::verilog_combinatorial;
use rust_hdl::widgets::dff::DFF;
use rust_hdl::widgets::fader::FaderWithSyncROM;
use rust_hdl::widgets::pwm::PulseWidthModulator;
use rust_hdl::widgets::pwm_vec::{replace_bit, AlchitryCuPWMVecSyncROM, Pll};
use rust_hdl::widgets::strobe::Strobe;
use rust_hdl::widgets::sync_rom::SyncROM;

fn set(signal: &mut Signal, value: u64) {
    signal.set_next(value);
    signal.tick();
}

#[test]
fn values_are_cut_to_their_bits() {
    assert_eq!(truncate(0, 1), 0);
    assert_eq!(truncate(3, 1), 1);
    assert_eq!(truncate(0x1ff, 8), 0xff);
    assert_eq!(truncate(u64::MAX, 63), u64::MAX >> 1);
    assert_eq!(truncate(u64::MAX, 64), u64::MAX);
    assert_eq!(truncate(u64::MAX, 100), u64::MAX);
    assert_eq!(truncate(5, 0), 0);
    assert_eq!(wrapping_add(1, 2, 8), 3);
    assert_eq!(wrapping_add(255, 1, 8), 0);
    assert_eq!(wrapping_add(255, 255, 8), 254);
    assert_eq!(wrapping_add(u64::MAX, 1, 64), 0);
    assert_eq!(wrapping_add(u64::MAX, u64::MAX, 64), u64::MAX - 1);
    assert_eq!(wrapping_add(u64::MAX, 2, 200), 1);
    assert_eq!(wrapping_add(7, 1, 3), 0);
    assert_eq!(wrapping_add(7, 1, 0), 0);
}

#[test]
fn a_signal_takes_its_next_value_at_a_tick() {
    let mut s = Signal::new(AtomKind::LocalSignal, 4).unwrap();
    assert_eq!(s.val(), 0);
    assert!(!s.pos_edge());
    s.set_next(9);
    assert_eq!(s.val(), 0);
    s.tick();
    assert_eq!(s.val(), 9);
    assert!(s.pos_edge());
    assert_eq!(s.verilog().to_string(), "4'h9");
    s.tick();
    assert_eq!(s.val(), 9);
    assert!(!s.pos_edge());
    s.set_next(0x1f);
    s.tick();
    assert_eq!(s.val(), 0xf);
    s.set_next(0);
    s.tick();
    assert_eq!(s.val(), 0);
    assert!(!s.pos_edge());
    let c = Signal::constant(8, 42).unwrap();
    assert_eq!(c.val(), 42);
    let copy = c.clone();
    assert_eq!(copy.val(), 42);
    assert_eq!(copy.kind(), AtomKind::Constant);
}

#[test]
fn a_register_follows_its_input_where_the_clock_rises() {
    let mut r = DFF::new(8, 5).unwrap();
    assert_eq!(r.default.to_string(), "8'h5");
    set(&mut r.d, 77);
    r.update();
    r.q.tick();
    assert_eq!(r.q.val(), 0);
    set(&mut r.clk, 1);
    r.update();
    r.q.tick();
    assert_eq!(r.q.val(), 77);
    assert_eq!(DFF::new(0, 0).err(), Some(WidthError::ZeroWidth));
    assert_eq!(DFF::new(2, 4).err(), Some(WidthError::ValueTooWide));
    match r.hdl() {
        Verilog::Custom(text) => assert_eq!(
            text,
            "initial begin\n   q = 8'h5;\nend\n\nalways @(posedge clk) q <= d;"
        ),
        _ => panic!("the behaviour of a register is custom text"),
    }
}

#[test]
fn a_strobe_counts_up_to_its_threshold() {
    let mut s = Strobe::<32>::new(3);
    assert_eq!(s.threshold.val(), 3);
    assert_eq!(s.threshold.kind(), AtomKind::Constant);
    // not enabled: the counter keeps its value
    set(&mut s.counter.q, 2);
    set(&mut s.clock, 1);
    s.update();
    s.counter.d.tick();
    s.counter.clk.tick();
    s.strobe.tick();
    assert_eq!(s.counter.clk.val(), 1);
    assert_eq!(s.counter.d.val(), 2);
    assert_eq!(s.strobe.val(), 0);
    // enabled below the threshold: the counter counts up
    set(&mut s.enable, 1);
    s.update();
    s.counter.d.tick();
    s.strobe.tick();
    assert_eq!(s.counter.d.val(), 3);
    assert_eq!(s.strobe.val(), 0);
    // enabled at the threshold: the strobe is raised
    set(&mut s.counter.q, 3);
    s.update();
    s.counter.d.tick();
    s.strobe.tick();
    assert_eq!(s.counter.d.val(), 4);
    assert_eq!(s.strobe.val(), 1);
    // raised: the counter starts again from one
    s.update();
    s.counter.d.tick();
    assert_eq!(s.counter.d.val(), 1);
}

#[test]
fn a_strobe_counter_wraps_at_its_width() {
    let mut s = Strobe::<4>::new(9);
    set(&mut s.enable, 1);
    set(&mut s.counter.q, 15);
    s.update();
    s.counter.d.tick();
    assert_eq!(s.counter.d.val(), 0);
}

#[test]
fn a_strobe_is_written_with_its_counter() {
    let s = Strobe::<32>::new(208333);
    let text = generate_verilog(&s);
    let expected = "\n\nmodule top(enable,strobe,clock);\n    \n    // Module arguments\n    input enable;\n    output reg strobe;\n    input clock;\n    \n    // Constant declarations\n    localparam threshold = 32'h32dcd;\n    \n    // Stub signals\n    reg [31:0] counter_d;\n    wire [31:0] counter_q;\n    reg counter_clk;\n    \n    // Sub module instances\n    top.counter counter(.d(counter_d),.q(counter_q),.clk(counter_clk));\n    \n    // Update code\n    always @(*) begin\n        counter_clk = clock;\n        counter_d = counter_q;\n        if (enable) begin\n            counter_d = counter_q + 32'h1;\n        end\n        strobe = enable & (counter_q == threshold);\n        if (strobe) begin\n            counter_d = 32'h1;\n        end\n    end\nendmodule // top\n\n\nmodule top.counter(d,q,clk);\n    \n    // Module arguments\n    input [31:0] d;\n    output reg [31:0] q;\n    input clk;\n    \n    // Update code (custom)\n    initial begin\n       q = 32'h0;\n    end\n    \n    always @(posedge clk) q <= d;\nendmodule // top.counter\n";
    assert_eq!(text, expected);
}

#[test]
fn a_modulator_is_high_below_its_threshold() {
    let mut m = PulseWidthModulator::<6>::new().unwrap();
    set(&mut m.threshold, 10);
    set(&mut m.counter.q, 9);
    set(&mut m.clock, 1);
    m.update();
    m.active.tick();
    m.counter.d.tick();
    m.counter.clk.tick();
    assert_eq!(m.active.val(), 0);
    assert_eq!(m.counter.d.val(), 10);
    assert_eq!(m.counter.clk.val(), 1);
    set(&mut m.enable, 1);
    m.update();
    m.active.tick();
    assert_eq!(m.active.val(), 1);
    set(&mut m.counter.q, 10);
    m.update();
    m.active.tick();
    assert_eq!(m.active.val(), 0);
    set(&mut m.counter.q, 63);
    m.update();
    m.counter.d.tick();
    assert_eq!(m.counter.d.val(), 0);
    assert_eq!(PulseWidthModulator::<0>::new().err(), Some(WidthError::ZeroWidth));
    match m.hdl() {
        Verilog::Combinatorial(block) => assert_eq!(
            verilog_combinatorial(&block),
            "always @(*) begin\n    counter_clk = clock;\n    counter_d = counter_q + 32'h1;\n    active = enable && (counter_q < threshold);\nend\n"
        ),
        _ => panic!("the behaviour of a modulator is a combinatorial block"),
    }
}

#[test]
fn a_table_is_read_where_the_clock_rises() {
    let mut rom = SyncROM::new(2, 6, vec![7, 8, 9]).unwrap();
    set(&mut rom.address, 1);
    rom.update();
    rom.data.tick();
    assert_eq!(rom.data.val(), 0);
    set(&mut rom.clock, 1);
    rom.update();
    rom.data.tick();
    assert_eq!(rom.data.val(), 8);
    set(&mut rom.clock, 0);
    set(&mut rom.address, 3);
    set(&mut rom.clock, 1);
    rom.update();
    rom.data.tick();
    assert_eq!(rom.data.val(), 0);
    match rom.hdl() {
        Verilog::Custom(text) => assert_eq!(
            text,
            "always @(posedge clock) begin\ncase (address)\n  2'h0: data <= 6'h7;\n  2'h1: data <= 6'h8;\n  2'h2: data <= 6'h9;\n  default: data <= 6'h0;\nendcase\nend"
        ),
        _ => panic!("the behaviour of a table is custom text"),
    }
    assert_eq!(SyncROM::new(0, 6, vec![]).err(), Some(WidthError::ZeroWidth));
    assert_eq!(SyncROM::new(2, 0, vec![]).err(), Some(WidthError::ZeroWidth));
    match SyncROM::new(1, 1, vec![]).unwrap().hdl() {
        Verilog::Custom(text) => assert_eq!(
            text,
            "always @(posedge clock) begin\ncase (address)\n  default: data <= 1'h0;\nendcase\nend"
        ),
        _ => panic!("the behaviour of a table is custom text"),
    }
}

#[test]
fn a_light_wires_its_parts() {
    let levels: Vec<u64> = (0..256).map(|x| (x % 64) as u64).collect();
    let mut f = FaderWithSyncROM::new(levels, 208333);
    assert_eq!(f.strobe.threshold.val(), 208333);
    set(&mut f.clock, 1);
    set(&mut f.enable, 1);
    set(&mut f.counter.q, 255);
    set(&mut f.strobe.strobe, 1);
    set(&mut f.pwm.active, 1);
    set(&mut f.rom.data, 33);
    f.update();
    for s in [
        &mut f.strobe.clock,
        &mut f.pwm.clock,
        &mut f.counter.clk,
        &mut f.rom.clock,
        &mut f.rom.address,
        &mut f.counter.d,
        &mut f.strobe.enable,
        &mut f.pwm.enable,
        &mut f.active,
        &mut f.pwm.threshold,
    ] {
        s.tick();
    }
    assert_eq!(f.strobe.clock.val(), 1);
    assert_eq!(f.pwm.clock.val(), 1);
    assert_eq!(f.counter.clk.val(), 1);
    assert_eq!(f.rom.clock.val(), 1);
    assert_eq!(f.rom.address.val(), 255);
    assert_eq!(f.counter.d.val(), 0);
    assert_eq!(f.strobe.enable.val(), 1);
    assert_eq!(f.pwm.enable.val(), 1);
    assert_eq!(f.active.val(), 1);
    assert_eq!(f.pwm.threshold.val(), 33);
}

#[test]
fn a_light_is_written_with_all_its_parts() {
    let levels: Vec<u64> = vec![1, 2];
    let f = FaderWithSyncROM::new(levels, 2);
    let mut defines = ModuleDefines::default();
    f.accept("top", &mut defines);
    for path in [
        "top",
        "top.counter",
        "top.pwm",
        "top.pwm.counter",
        "top.rom",
        "top.strobe",
        "top.strobe.counter",
    ] {
        assert!(defines.details(path).is_some());
    }
    let top = defines.details("top").unwrap();
    let names: Vec<&str> = top.atoms.iter().map(|a| a.name.as_str()).collect();
    assert_eq!(
        names,
        vec![
            "clock",
            "active",
            "enable",
            "strobe_enable",
            "strobe_strobe",
            "strobe_clock",
            "pwm_enable",
            "pwm_threshold",
            "pwm_clock",
            "pwm_active",
            "rom_address",
            "rom_clock",
            "rom_data",
            "counter_d",
            "counter_q",
            "counter_clk",
        ]
    );
    let text = generate_verilog(&f);
    assert_eq!(text, defines.defines());
    assert!(text.contains("\nmodule top(clock,active,enable);\n"));
    assert!(text.contains("    top.strobe strobe(.enable(strobe_enable),.strobe(strobe_strobe),.clock(strobe_clock));\n"));
    assert!(text.contains("    top.pwm pwm(.enable(pwm_enable),.threshold(pwm_threshold),.clock(pwm_clock),.active(pwm_active));\n"));
    assert!(text.contains("    top.rom rom(.address(rom_address),.clock(rom_clock),.data(rom_data));\n"));
    assert!(text.contains("        counter_d = counter_q + strobe_strobe;\n"));
    assert!(text.contains("      8'h1: data <= 6'h2;\n"));
    assert!(text.contains("    localparam threshold = 32'h2;\n"));
    assert!(text.contains("    wire [5:0] rom_data;\n"));
    assert!(text.contains("    reg [7:0] rom_address;\n"));
}

#[test]
fn lights_in_a_row_are_written_one_by_one() {
    let row = [FaderWithSyncROM::new(vec![0], 2), FaderWithSyncROM::new(vec![1], 3)];
    let text = generate_verilog(&row);
    assert!(text.contains("\nmodule 0(clock,active,enable);\n"));
    assert!(text.contains("\nmodule 1(clock,active,enable);\n"));
    assert!(text.contains("\nmodule 0.strobe(enable,strobe,clock);\n"));
    assert!(text.contains("\nmodule 1.pwm.counter(d,q,clk);\n"));
}

#[test]
fn wiring_leaves_the_parts_as_they_are() {
    let mut s = Strobe::<8>::new(5);
    let before = generate_verilog(&s);
    logic_connect_fn(&mut s);
    assert_eq!(generate_verilog(&s), before);
    let mut f = FaderWithSyncROM::new(vec![3], 2);
    let before = generate_verilog(&f);
    logic_connect_fn(&mut f);
    f.update();
    assert_eq!(generate_verilog(&f), before);
}

fn snore(x: u32) -> u64 {
    let amp = (f64::exp(f64::sin(((x as f64) - 128.0 / 2.) * std::f64::consts::PI / 128.0))
        - 0.36787944)
        * 108.0;
    let amp = (amp.max(0.0).min(255.0).floor() / 255.0 * (1 << 6) as f64) as u8;
    (amp as u64) & 0x3f
}

fn fader(phase: u32) -> FaderWithSyncROM {
    let rom = (0..256_u32).map(|x| snore(x + phase)).collect::<Vec<_>>();
    let interval = (1.0e15 / 120.0) / (1.0e15 / 25_000_000.0_f64);
    FaderWithSyncROM::new(rom, interval.round() as u64)
}

fn lights() -> AlchitryCuPWMVecSyncROM<6> {
    let faders = [
        fader(0),
        fader(18),
        fader(36),
        fader(54),
        fader(72),
        fader(90),
        fader(108),
        fader(128),
    ];
    AlchitryCuPWMVecSyncROM::new(
        Signal::new(AtomKind::InputParameter, 1).unwrap(),
        Signal::new(AtomKind::OutputParameter, 8).unwrap(),
        faders,
        Pll::new("module top$pll(input clock_in, output clock_out);\nendmodule"),
    )
}

#[test]
fn test_pwm_vec_sync_rom_synthesizes() {
    let mut uut: AlchitryCuPWMVecSyncROM<6> = lights();
    logic_connect_fn(&mut uut);
    let pwm_cu_srom = generate_verilog(&uut);
    assert!(pwm_cu_srom.contains("\nmodule top(clock,leds);\n"));
    for i in 0..8 {
        for part in ["", ".counter", ".pwm", ".pwm.counter", ".rom", ".strobe", ".strobe.counter"] {
            assert_eq!(pwm_cu_srom.matches(&format!("\nmodule top.{}{}(", i, part)).count(), 1);
        }
        assert!(pwm_cu_srom.contains(&format!(
            "    top.{} {}(.clock({}_clock),.active({}_active),.enable({}_enable));\n",
            i, i, i, i, i
        )));
    }
    assert_eq!(pwm_cu_srom.matches("localparam threshold = 32'h32dcd;").count(), 8);
    assert_eq!(pwm_cu_srom.matches("top.pll").count(), 0);
    assert!(pwm_cu_srom
        .ends_with("module top$pll(input clock_in, output clock_out);\nendmodule\n"));
    assert_eq!(pwm_cu_srom, generate_verilog(&uut));
}

#[test]
fn the_lights_are_written_behind_their_loop() {
    let uut = lights();
    let text = generate_verilog(&uut);
    let head = "\n\nmodule top(clock,leds);\n    \n    // Module arguments\n    input clock;\n    output reg [7:0] leds;\n    \n    // Stub signals\n    reg 0_clock;\n    wire 0_active;\n    reg 0_enable;\n";
    assert!(text.starts_with(head));
    let body = "    \n    // Local signals\n    wire [7:0] local;\n    \n    // Sub module instances\n    top.0 0(.clock(0_clock),.active(0_active),.enable(0_enable));\n";
    assert!(text.contains(body));
    let code = "    \n    // Update code\n    always @(*) begin\n        pll_clock_in = clock;\n        0_clock = pll_clock_out;\n        0_enable = 1'h1;\n        1_clock = pll_clock_out;\n        1_enable = 1'h1;\n";
    assert!(text.contains(code));
    let tail = "        local = 8'h0;\n        local[32'h0] = 0_active;\n        local[32'h1] = 1_active;\n        local[32'h2] = 2_active;\n        local[32'h3] = 3_active;\n        local[32'h4] = 4_active;\n        local[32'h5] = 5_active;\n        local[32'h6] = 6_active;\n        local[32'h7] = 7_active;\n        leds = local;\n    end\nendmodule // top\n";
    assert!(text.contains(tail));
    assert!(text.contains("    reg pll_clock_in;\n    wire pll_clock_out;\n"));
}

#[test]
fn the_lights_get_the_clock_of_the_loop() {
    let mut uut = lights();
    set(&mut uut.clock, 1);
    set(&mut uut.pll.clock_out, 1);
    set(&mut uut.local, 0b0101_0101);
    set(&mut uut.faders[7].active, 1);
    set(&mut uut.faders[0].active, 0);
    uut.update();
    uut.pll.clock_in.tick();
    uut.local.tick();
    uut.leds.tick();
    assert_eq!(uut.pll.clock_in.val(), 1);
    assert_eq!(uut.local.val(), 0b1101_0101);
    assert_eq!(uut.leds.val(), 0b0101_0101);
    for i in 0..8 {
        uut.faders[i].clock.tick();
        uut.faders[i].enable.tick();
        assert_eq!(uut.faders[i].clock.val(), 1);
        assert_eq!(uut.faders[i].enable.val(), 1);
    }
    assert_eq!(replace_bit(0b1111, 1, 0), 0b1101);
    assert_eq!(replace_bit(0, 63, 1), 1 << 63);
    assert_eq!(replace_bit(0, 3, 2), 0);
    assert_eq!(replace_bit(0, 3, 3), 8);
}
