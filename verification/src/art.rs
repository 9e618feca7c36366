//! The pictures of the built-in trains.
//!
//! An engine is drawn in two parts: its top, which stays as it is, and
//! its wheels, which turn. The cars and the smoke are drawn on their own.

use vstd::prelude::*;

verus! {

/// The upper part of the default engine, down to the line above the wheels.
pub const DEFAULT_TRAIN_TOP: &'static str =
    "      ====        ________                ___________ \n  _D _|  |_______/        \\__I_I_____===__|_________| \n   |(_)---  |   H\\________/ |   |        =|___ ___|   \n   /     |  |   H  |  |     |   |         ||_| |_||   \n  |      |  |   H  |__--------------------| [___] |   \n  | ________|___H__/__|_____/[][]~\\_______|       |   \n  |/ |   |-----------I_____I [][] []  D   |=======|___\n";

/// The wheels of the default engine, in the six positions of a turn.
pub const DEFAULT_TRAIN_WHEELS: [&'static str; 6] = [
    "__/ =| o |=-~~\\  /~~\\  /~~\\  /~~\\ ____Y___________|__\n |/-=|___|=    ||    ||    ||    |_____/~\\___/        \n  \\_/      \\_O=====O=====O=====O/      \\_/            ",
    "__/ =| o |=-~~\\  /~~\\  /~~\\  /~~\\ ____Y___________|__\n |/-=|___|=   O=====O=====O=====O|_____/~\\___/        \n  \\_/      \\__/  \\__/  \\__/  \\__/      \\_/            ",
    "__/ =| o |=-~O=====O=====O=====O\\ ____Y___________|__\n |/-=|___|=    ||    ||    ||    |_____/~\\___/        \n  \\_/      \\__/  \\__/  \\__/  \\__/      \\_/            ",
    "__/ =| o |=-O=====O=====O=====O \\ ____Y___________|__\n |/-=|___|=    ||    ||    ||    |_____/~\\___/        \n  \\_/      \\__/  \\__/  \\__/  \\__/      \\_/            ",
    "__/ =| o |=-~~\\  /~~\\  /~~\\  /~~\\ ____Y___________|__\n |/-=|___|=O=====O=====O=====O   |_____/~\\___/        \n  \\_/      \\__/  \\__/  \\__/  \\__/      \\_/            ",
    "__/ =| o |=-~~\\  /~~\\  /~~\\  /~~\\ ____Y___________|__\n |/-=|___|=    ||    ||    ||    |_____/~\\___/        \n  \\_/      \\O=====O=====O=====O_/      \\_/            ",
];

/// The car that the default engine pulls. Two blank lines at its top bring
/// it down to the level of the engine.
pub const DEFAULT_TRAIN_CAR: &'static str =
    "\n\n    _________________\n   _|                \\_____A\n =|                        |\n -|                        |\n__|________________________|_\n|__________________________|_\n   |_D__D__D_|  |_D__D__D_|\n    \\_/   \\_/    \\_/   \\_/";

/// The smoke, in its two shapes.
pub const DEFAULT_SMOKE: [&'static str; 2] = [
    "                (  ) (@@) (  )  (@)  ()   @   O   @   O   @   O   @   O   @\n             (@@@)\n         (   )\n     (@@@@)\n  (    )\n\n(@@@@)",
    "                (@@) (  ) (@@)  ( )  ()   O   @   O   @   O   @   O   @   O\n             (   )\n         (@@@)\n     (    )\n  (@@@@)\n\n(    )",
];

/// The upper part of the LOGO engine.
pub const LOGO_TRAIN_TOP: &'static str =
    "     ++      +------ \n     ||      |+-+ |  \n   /---------|| | |  \n  + ========  +-+ |  \n";

/// The wheels of the LOGO engine, in the six positions of a turn.
pub const LOGO_TRAIN_WHEELS: [&'static str; 6] = [
    " _|--/~\\------/~\\-+  \n//// O========O_/    ",
    " _|--/~\\------/~\\-+  \n//// \\O========O/    ",
    " _|--/~\\------/~\\-+  \n//// \\_O========O    ",
    " _|--/~O========O-+  \n//// \\_/      \\_/    ",
    " _|--/O========O\\-+  \n//// \\_/      \\_/    ",
    " _|--O========O~\\-+  \n//// \\_/      \\_/    ",
];

/// The cars that the LOGO engine pulls.
pub const LOGO_CARS: &'static str =
    "____                 ____________________ ____________________ \n|   \\@@@@@@@@@@@     |  ___ ___ ___ ___ | |  ___ ___ ___ ___ | \n|    \\@@@@@@@@@@@@@_ |  |_| |_| |_| |_| | |  |_| |_| |_| |_| | \n|                  | |__________________| |__________________| \n|__________________| |__________________| |__________________| \n   (O)       (O)        (O)       (O)        (O)       (O)     ";

/// The upper part of the C51 engine.
pub const C51_TRAIN_TOP: &'static str =
    "        ___                                            \n       _|_|_  _     __       __             ___________\n    D__/   \\_(_)___|  |__H__|  |_____I_Ii_()|_________|\n     | `---'   |:: `--'  H  `--'         |  |___ ___|  \n    +|~~~~~~~~++::~~~~~~~H~~+=====+~~~~~~|~~||_| |_||  \n    ||        | ::       H  +=====+      |  |::  ...|  \n|    | _______|_::-----------------[][]-----|       |  \n";

/// The wheels of the C51 engine, in the six positions of a turn.
pub const C51_TRAIN_WHEELS: [&'static str; 6] = [
    "| /~~ ||   |-----/~~~~\\  /[I_____I][][] --|||_______|__\n------'|oOo|==[]=-     ||      ||      |  ||=======_|__\n/~\\____|___|/~\\_|   O=======O=======O  |__|+-/~\\_|     \n\\_/         \\_/  \\____/  \\____/  \\____/      \\_/       ",
    "| /~~ ||   |-----/~~~~\\  /[I_____I][][] --|||_______|__\n------'|oOo|===[]=-    ||      ||      |  ||=======_|__\n/~\\____|___|/~\\_|    O=======O=======O |__|+-/~\\_|     \n\\_/         \\_/  \\____/  \\____/  \\____/      \\_/       ",
    "| /~~ ||   |-----/~~~~\\  /[I_____I][][] --|||_______|__\n------'|oOo|===[]=- O=======O=======O  |  ||=======_|__\n/~\\____|___|/~\\_|      ||      ||      |__|+-/~\\_|     \n\\_/         \\_/  \\____/  \\____/  \\____/      \\_/       ",
    "| /~~ ||   |-----/~~~~\\  /[I_____I][][] --|||_______|__\n------'|oOo|==[]=- O=======O=======O   |  ||=======_|__\n/~\\____|___|/~\\_|      ||      ||      |__|+-/~\\_|     \n\\_/         \\_/  \\____/  \\____/  \\____/      \\_/       ",
    "| /~~ ||   |-----/~~~~\\  /[I_____I][][] --|||_______|__\n------'|oOo|=[]=- O=======O=======O    |  ||=======_|__\n/~\\____|___|/~\\_|      ||      ||      |__|+-/~\\_|     \n\\_/         \\_/  \\____/  \\____/  \\____/      \\_/       ",
    "| /~~ ||   |-----/~~~~\\  /[I_____I][][] --|||_______|__\n------'|oOo|=[]=-      ||      ||      |  ||=======_|__\n/~\\____|___|/~\\_|  O=======O=======O   |__|+-/~\\_|     \n\\_/         \\_/  \\____/  \\____/  \\____/      \\_/       ",
];

} // verus!
