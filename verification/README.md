# ev3nav

Route planning and drive decisions for an EV3 robot that follows black
lines between crossings.

- `src/graph.rs`: the map (a `petgraph` graph of crossings), reading a map
  document into it, searching a shortest route, and turning a route into
  moves (rotations across lines, and where to stop on arrival).
- `src/line.rs`: light calibration, steering and wheel commands, the wheel
  synchroniser's arithmetic, when rides and turns are over.
- `src/line_testing.rs`: the same decisions for the bench robot with
  mirrored medium motors.
- `src/joystick.rs`: the game pad snapshot and the paths of its lights.
- `src/drive.rs`: the steps that carry out a planned route, and driving by
  hand with the pad.
- `app/`: the program around the library: motors and sensors, the
  floating-point controllers, the Lua script interface, the map file reader.

The library is verified with Verus; `tests/` runs it on concrete maps and
readings.
