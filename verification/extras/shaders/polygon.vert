#version 460

layout(location = 0) in vec2 position;
layout(location = 1) out vec2 pos;

void main() {
    gl_Position = vec4(position, 0.0, 1.0);
    gl_PointSize = 10.0;

    pos = gl_Position.xy;
}
